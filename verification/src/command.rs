//! Commands of a package manager, and how a package name is put into one.
use vstd::prelude::*;
use crate::text::chars_of;

verus! {

/// A command written as a pattern: wherever `{package_name}` stands in it, the
/// name of the package goes.
#[derive(Debug, PartialEq, Eq)]
pub struct TemplateCommand {
    pub template: String,
}

/// A command of a package manager.
#[derive(Debug, PartialEq, Eq)]
#[non_exhaustive]
pub enum Command {
    /// A pattern with a placeholder for the package name.
    Template(TemplateCommand),
    /// A bare verb: the package name follows it after one space.
    Simple(String),
}

/// What a [`Command`] stands for.
pub enum CommandText {
    Template(Seq<char>),
    Simple(Seq<char>),
}

impl View for Command {
    type V = CommandText;

    open spec fn view(&self) -> CommandText {
        match self {
            Command::Template(t) => CommandText::Template(t.template@),
            Command::Simple(s) => CommandText::Simple(s@),
        }
    }
}

/// The placeholder: `{package_name}`.
pub open spec fn placeholder() -> Seq<char> {
    seq!['{', 'p', 'a', 'c', 'k', 'a', 'g', 'e', '_', 'n', 'a', 'm', 'e', '}']
}

/// `template` with `name` in place of every placeholder, read from the left:
/// a placeholder begins where one is found, and the search goes on behind it.
pub open spec fn substitute(template: Seq<char>, name: Seq<char>) -> Seq<char>
    decreases template.len(),
{
    if template.len() < placeholder().len() {
        template
    } else if template.subrange(0, placeholder().len() as int) == placeholder() {
        name + substitute(template.skip(placeholder().len() as int), name)
    } else {
        seq![template[0]] + substitute(template.skip(1), name)
    }
}

/// The command line that a command gives for a package.
pub open spec fn formatted(command: CommandText, name: Seq<char>) -> Seq<char> {
    match command {
        CommandText::Template(pattern) => substitute(pattern, name),
        CommandText::Simple(verb) => verb + seq![' '] + name,
    }
}

/// Whether `pattern` stands in `text` at position `at`.
fn stands_at(text: &Vec<char>, at: usize, pattern: &Vec<char>) -> (out: bool)
    requires
        at + pattern@.len() <= text@.len(),
    ensures
        out == (text@.subrange(at as int, at + pattern@.len()) == pattern@),
{
    let mut k: usize = 0;
    assert(text@.len() == text.len());
    while k < pattern.len()
        invariant
            k <= pattern@.len(),
            at + pattern@.len() <= text@.len() <= usize::MAX,
            forall|j: int| 0 <= j < k ==> text@[at + j] == pattern@[j],
        decreases pattern.len() - k,
    {
        if text[at + k] != pattern[k] {
            assert(text@.subrange(at as int, at + pattern@.len())[k as int] != pattern@[k as int]);
            return false;
        }
        k += 1;
    }
    assert(text@.subrange(at as int, at + pattern@.len()) =~= pattern@);
    true
}

/// `template` with `name` in place of every `{package_name}`.
pub fn fill_template(template: &str, name: &str) -> (out: String)
    ensures
        out@ == substitute(template@, name@),
{
    proof {
        reveal_strlit("{package_name}");
        assert("{package_name}"@ =~= placeholder());
    }
    let text = chars_of(template);
    let pattern = chars_of("{package_name}");
    let width = pattern.len();
    let mut out = String::new();
    let mut done: usize = 0;
    let mut at: usize = 0;
    assert(text@.skip(0) =~= text@);
    while text.len() - at >= width
        invariant
            width == 14,
            pattern@ == placeholder(),
            text@ == template@,
            done <= at <= text@.len(),
            substitute(text@, name@) == out@ + text@.subrange(done as int, at as int) + substitute(
                text@.skip(at as int),
                name@,
            ),
        decreases text.len() - at,
    {
        let ghost rest = text@.skip(at as int);
        assert(rest.subrange(0, 14) =~= text@.subrange(at as int, at + 14));
        if stands_at(&text, at, &pattern) {
            out.append(template.substring_char(done, at));
            out.append(name);
            assert(rest.skip(14) =~= text@.skip(at + 14));
            at += width;
            done = at;
            assert(text@.subrange(done as int, at as int) =~= Seq::<char>::empty());
        } else {
            assert(rest.skip(1) =~= text@.skip(at + 1));
            assert(text@.subrange(done as int, at as int) + seq![rest[0]] =~= text@.subrange(
                done as int,
                at + 1,
            ));
            at += 1;
        }
    }
    out.append(template.substring_char(done, text.len()));
    assert(text@.subrange(done as int, at as int) + text@.skip(at as int) =~= text@.subrange(
        done as int,
        text@.len() as int,
    ));
    out
}

impl Command {
    /// The command line for a package: a pattern with the name in place of
    /// every `{package_name}`, or a verb, a space, and the name. A pattern
    /// without the placeholder comes back as it is.
    pub fn format(&self, package_name: &str) -> (out: String)
        ensures
            out@ == formatted(self@, package_name@),
    {
        match self {
            Command::Template(t) => fill_template(t.template.as_str(), package_name),
            Command::Simple(verb) => {
                proof {
                    reveal_strlit(" ");
                    assert(" "@ =~= seq![' ']);
                }
                let mut out = verb.clone();
                out.append(" ");
                out.append(package_name);
                out
            },
        }
    }
}

} // verus!
