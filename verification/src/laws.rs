//! What holds of the store whatever its rows are.
use vstd::prelude::*;
use crate::command::{placeholder, substitute};
use crate::error::{DuplicateError, TrackError};
use crate::listing::{name_order, placed};
use crate::models::{attached, insert_package_outcome, insert_version_outcome};
use crate::store::{install_text, is_action, Store};
use crate::text::{collect, le_from, text_le};

verus! {

impl Store {
    /// Whether exactly one package has this name and source.
    pub open spec fn has_one_package(self, name: Seq<char>, source: Seq<char>) -> bool {
        exists|i: int|
            0 <= i < self.packages.len() && (#[trigger] self.packages[i]).name == name
                && self.packages[i].source == source && forall|j: int|
                0 <= j < self.packages.len() && (#[trigger] self.packages[j]).name == name
                    && self.packages[j].source == source ==> j == i
    }

    /// Whether a package has this version exactly once.
    pub open spec fn has_one_version(self, package_id: int, version: Seq<char>) -> bool {
        exists|i: int|
            0 <= i < self.versions.len() && (#[trigger] self.versions[i]).package_id
                == package_id && self.versions[i].version == version && forall|j: int|
                0 <= j < self.versions.len() && (#[trigger] self.versions[j]).package_id
                    == package_id && self.versions[j].version == version ==> j == i
    }
}

/// A package can be inserted once. After it has been, a second insert of the
/// same name and source is refused as a duplicate that names the first, and
/// the store holds the package exactly once.
pub proof fn law_package_inserted_once(
    store: Store,
    name: Seq<char>,
    source: Seq<char>,
    description: Option<Seq<char>>,
)
    requires
        store.consistent(),
        insert_package_outcome(true, store, name, source) is Ok,
    ensures
        insert_package_outcome(true, store.with_package(name, source, description), name, source)
            == Err::<i64, TrackError>(
            TrackError::Duplicate(
                DuplicateError::Package(insert_package_outcome(true, store, name, source)->Ok_0),
            ),
        ),
        store.with_package(name, source, description).has_one_package(name, source),
{
    let after = store.with_package(name, source, description);
    let last = store.packages.len() as int;
    store.lemma_package_at(name, source);
    after.lemma_package_at(name, source);
    assert(after.packages[last].name == name && after.packages[last].source == source);
    assert(after.package_at(name, source) == Some(last));
}

/// A version can be added to a package once. After it has been, a second
/// insert of the same version is refused as a duplicate that names the first,
/// and the package has the version exactly once.
pub proof fn law_version_inserted_once(store: Store, package_id: int, version: Seq<char>)
    requires
        store.consistent(),
        insert_version_outcome(true, store, package_id, version) is Ok,
    ensures
        insert_version_outcome(true, store.with_version(package_id, version), package_id, version)
            == Err::<i64, TrackError>(
            TrackError::Duplicate(
                DuplicateError::Version(
                    insert_version_outcome(true, store, package_id, version)->Ok_0,
                ),
            ),
        ),
        store.with_version(package_id, version).has_one_version(package_id, version),
{
    let after = store.with_version(package_id, version);
    let last = store.versions.len() as int;
    store.lemma_version_at(package_id, version);
    after.lemma_version_at(package_id, version);
    store.lemma_grown(after);
    assert(after.versions[last].package_id == package_id && after.versions[last].version
        == version);
    assert(after.version_at(package_id, version) == Some(last));
}

/// In a store that obeys the schema no name and source occur on two
/// packages, and no package has a version twice.
pub proof fn law_keys_occur_once(store: Store, i: int, j: int)
    requires
        store.consistent(),
    ensures
        0 <= i < store.packages.len() && 0 <= j < store.packages.len() && store.packages[i].name
            == store.packages[j].name && store.packages[i].source == store.packages[j].source
            ==> i == j,
        0 <= i < store.versions.len() && 0 <= j < store.versions.len()
            && store.versions[i].package_id == store.versions[j].package_id
            && store.versions[i].version == store.versions[j].version ==> i == j,
{
    if i < j {
        if 0 <= i && j < store.packages.len() {
            assert(!(store.packages[i].name == store.packages[j].name && store.packages[i].source
                == store.packages[j].source));
        }
        if 0 <= i && j < store.versions.len() {
            assert(!(store.versions[i].package_id == store.versions[j].package_id
                && store.versions[i].version == store.versions[j].version));
        }
    } else if j < i {
        if 0 <= j && i < store.packages.len() {
            assert(!(store.packages[j].name == store.packages[i].name && store.packages[j].source
                == store.packages[i].source));
        }
        if 0 <= j && i < store.versions.len() {
            assert(!(store.versions[j].package_id == store.versions[i].package_id
                && store.versions[j].version == store.versions[i].version));
        }
    }
}

/// Tracking the same version of the same package twice adds no package and
/// no version the second time, and one more row to the log each time: the
/// history only grows.
pub proof fn law_version_reused(
    store: Store,
    source: Seq<char>,
    package: Seq<char>,
    version: Seq<char>,
    first_time: Seq<char>,
    second_time: Seq<char>,
    first_description: Option<Seq<char>>,
    second_description: Option<Seq<char>>,
)
    requires
        store.consistent(),
    ensures
        ({
            let once = store.after_track(source, package, version, first_time, first_description);
            let twice = once.after_track(
                source,
                package,
                version,
                second_time,
                second_description,
            );
            &&& twice.packages == once.packages
            &&& twice.versions == once.versions
            &&& once.installations.len() == store.installations.len() + 1
            &&& twice.installations.len() == store.installations.len() + 2
            &&& once.installations.last().version_id == twice.installations.last().version_id
            &&& once.has_one_package(package, source)
            &&& once.has_one_version(once.package_id_for(package, source), version)
        }),
{
    let with_package = store.package_resolved(package, source, first_description);
    let package_id = store.package_id_for(package, source);
    let with_version = with_package.version_resolved(package_id, version);
    let version_id = with_package.version_id_for(package_id, version);
    let once = store.after_track(source, package, version, first_time, first_description);
    store.lemma_package_at(package, source);
    with_package.lemma_package_at(package, source);
    once.lemma_package_at(package, source);
    if store.package_at(package, source) is None {
        assert(with_package.packages[store.packages.len() as int].name == package);
        store.lemma_with_package(package, source, first_description);
    }
    assert(with_package.consistent());
    assert(once.package_at(package, source) == with_package.package_at(package, source));
    assert(once.package_at(package, source) is Some);
    let at = once.package_at(package, source)->0;
    assert(once.packages[at].id == package_id);
    with_package.lemma_version_at(package_id, version);
    with_version.lemma_version_at(package_id, version);
    once.lemma_version_at(package_id, version);
    if with_package.version_at(package_id, version) is None {
        assert(with_version.versions[with_package.versions.len() as int].version == version);
    }
    assert(once.version_at(package_id, version) == with_version.version_at(package_id, version));
    assert(once.version_at(package_id, version) is Some);
    let vat = once.version_at(package_id, version)->0;
    assert(once.versions[vat].id == version_id);
    assert(once.package_resolved(package, source, second_description) == once);
    assert(once.version_resolved(package_id, version) == once);
    assert forall|j: int|
        0 <= j < once.packages.len() && (#[trigger] once.packages[j]).name == package
            && once.packages[j].source == source implies j == at by {
        law_keys_occur_once(with_package, j, at);
    }
    assert(once.has_one_package(package, source));
    assert(with_version.keys_unique()) by {
        if with_package.version_at(package_id, version) is None {
            assert(with_version.keys_unique());
        }
    }
    assert forall|j: int|
        0 <= j < once.versions.len() && (#[trigger] once.versions[j]).package_id == package_id
            && once.versions[j].version == version implies j == vat by {
        if j < vat {
            assert(!(with_version.versions[j].package_id == with_version.versions[vat].package_id
                && with_version.versions[j].version == with_version.versions[vat].version));
        } else if vat < j {
            assert(!(with_version.versions[vat].package_id == with_version.versions[j].package_id
                && with_version.versions[vat].version == with_version.versions[j].version));
        }
    }
}

/// Every installation belongs to a version that the store has, and through
/// it to a package that the store has: no row is an orphan.
pub proof fn law_no_orphans(store: Store, i: int)
    requires
        store.consistent(),
        0 <= i < store.installations.len(),
    ensures
        store.owner_of_version(store.installations[i].version_id) is Some,
        store.has_package(store.owner_of_version(store.installations[i].version_id)->0),
{
    let version_id = store.installations[i].version_id;
    store.lemma_version_by_id(version_id);
    assert(store.has_version(version_id));
    let at = store.version_by_id(version_id)->0;
    assert(store.has_package(store.versions[at].package_id));
}

/// To track an installation appends one `install` at the given instant to
/// the log and leaves every earlier row of the log as it was.
pub proof fn law_history_only_grows(
    store: Store,
    source: Seq<char>,
    package: Seq<char>,
    version: Seq<char>,
    timestamp: Seq<char>,
    description: Option<Seq<char>>,
)
    ensures
        ({
            let after = store.after_track(source, package, version, timestamp, description);
            &&& after.installations.drop_last() == store.installations
            &&& after.installations.last().action == install_text()
            &&& after.installations.last().timestamp == timestamp
            &&& after.tags == store.tags
            &&& after.package_tags == store.package_tags
        }),
{
    let after = store.after_track(source, package, version, timestamp, description);
    assert(after.installations.drop_last() =~= store.installations);
}

/// To attach a tag that is attached already changes nothing: after one
/// attachment a second one of the same tag to the same package leaves the
/// store as it is.
pub proof fn law_tag_attached_once(store: Store, package_id: int, tag_name: Seq<char>)
    requires
        store.consistent(),
    ensures
        attached(attached(store, package_id, tag_name), package_id, tag_name) == attached(
            store,
            package_id,
            tag_name,
        ),
{
    let once = attached(store, package_id, tag_name);
    store.lemma_tag_at(tag_name);
    once.lemma_tag_at(tag_name);
    match store.tag_at(tag_name) {
        Some(i) => {
            let tag_id = store.tags[i].id;
            assert(once.tags == store.tags);
            assert(once.tag_at(tag_name) == Some(i));
            store.lemma_attachment_at(package_id, tag_id);
            once.lemma_attachment_at(package_id, tag_id);
            if store.attachment_at(package_id, tag_id) is None {
                assert(once.package_tags[store.package_tags.len() as int].package_id
                    == package_id);
            }
        },
        None => {
            let tag_id = store.next_tag_id();
            let at = store.tags.len() as int;
            assert(once.tags[at].name == tag_name);
            assert(once.tag_at(tag_name) == Some(at));
            once.lemma_attachment_at(package_id, tag_id);
            assert(once.package_tags[store.package_tags.len() as int].package_id == package_id);
        },
    }
}

/// A pattern in which the placeholder does not stand comes back as it is,
/// whatever the name of the package.
pub proof fn law_pattern_without_placeholder(template: Seq<char>, name: Seq<char>)
    requires
        forall|i: int|
            0 <= i && i + placeholder().len() <= template.len() ==> #[trigger] template.subrange(
                i,
                i + placeholder().len(),
            ) != placeholder(),
    ensures
        substitute(template, name) == template,
    decreases template.len(),
{
    let width = placeholder().len() as int;
    if template.len() >= width {
        let rest = template.skip(1);
        assert forall|i: int| 0 <= i && i + width <= rest.len() implies #[trigger] rest.subrange(
            i,
            i + width,
        ) != placeholder() by {
            assert(rest.subrange(i, i + width) =~= template.subrange(
                i + 1,
                i + 1 + placeholder().len(),
            ));
        }
        law_pattern_without_placeholder(rest, name);
        assert(template.subrange(0int, 0int + placeholder().len()) != placeholder());
        assert(seq![template[0]] + rest =~= template);
    }
}

/// A pattern that is some text without an opening brace, followed by the
/// placeholder, gives that text followed by the name. So the pattern
/// `install {package_name}` and the bare verb `install` give the same command
/// line.
pub proof fn law_pattern_ending_in_placeholder(lead: Seq<char>, name: Seq<char>)
    requires
        forall|i: int| 0 <= i < lead.len() ==> lead[i] != '{',
    ensures
        substitute(lead + placeholder(), name) == lead + name,
    decreases lead.len(),
{
    let pattern = lead + placeholder();
    let width = placeholder().len() as int;
    if lead.len() == 0 {
        assert(pattern =~= placeholder());
        assert(pattern.subrange(0, width) =~= placeholder());
        assert(pattern.skip(width) =~= Seq::<char>::empty());
        assert(substitute(pattern.skip(width), name) =~= Seq::<char>::empty());
        assert(name + Seq::<char>::empty() =~= lead + name);
    } else {
        assert(pattern.subrange(0, width)[0] == lead[0]);
        assert(placeholder()[0] == '{');
        assert(pattern.subrange(0, width) != placeholder());
        let rest = lead.skip(1);
        assert(pattern.skip(1) =~= rest + placeholder());
        assert forall|i: int| 0 <= i < rest.len() implies rest[i] != '{' by {
            assert(rest[i] == lead[i + 1]);
        }
        law_pattern_ending_in_placeholder(rest, name);
        assert(seq![pattern[0]] + (rest + name) =~= lead + name);
    }
}

/// A gathered column holds no token twice.
pub proof fn law_tokens_distinct(
    n: int,
    belongs: spec_fn(int) -> bool,
    token: spec_fn(int) -> Seq<char>,
)
    ensures
        collect(n, belongs, token).no_duplicates(),
    decreases n,
{
    if n > 0 {
        law_tokens_distinct(n - 1, belongs, token);
    }
}

/// A gathered column holds a token if and only if a row that belongs gives
/// it.
pub proof fn law_tokens_complete(
    n: int,
    belongs: spec_fn(int) -> bool,
    token: spec_fn(int) -> Seq<char>,
    t: Seq<char>,
)
    ensures
        collect(n, belongs, token).contains(t) <==> exists|i: int|
            0 <= i < n && #[trigger] belongs(i) && token(i) == t,
    decreases n,
{
    if n > 0 {
        law_tokens_complete(n - 1, belongs, token, t);
        let before = collect(n - 1, belongs, token);
        let now = collect(n, belongs, token);
        if now.contains(t) {
            if before.contains(t) {
                let i = choose|i: int| 0 <= i < n - 1 && #[trigger] belongs(i) && token(i) == t;
                assert(0 <= i < n && belongs(i) && token(i) == t);
            } else {
                let at = choose|at: int| 0 <= at < now.len() && now[at] == t;
                assert(now == before.push(token(n - 1)));
                if at < before.len() {
                    assert(before[at] == t);
                }
                assert(belongs(n - 1) && token(n - 1) == t);
            }
        }
        if exists|i: int| 0 <= i < n && #[trigger] belongs(i) && token(i) == t {
            let i = choose|i: int| 0 <= i < n && #[trigger] belongs(i) && token(i) == t;
            if i < n - 1 {
                assert(before.contains(t));
                let at = choose|at: int| 0 <= at < before.len() && before[at] == t;
                assert(now[at] == t);
            } else if before.contains(t) {
                let at = choose|at: int| 0 <= at < before.len() && before[at] == t;
                assert(now[at] == t);
            } else {
                assert(now == before.push(t));
                assert(now[before.len() as int] == t);
            }
        }
    }
}

/// However many versions a package has and however often each was installed
/// or removed, the listing names each of its versions, actions, instants and
/// tags once: the rows that the joins multiply are not counted again.
pub proof fn law_columns_without_repeats(store: Store, package_id: int)
    ensures
        store.version_tokens(package_id).no_duplicates(),
        store.action_tokens(package_id).no_duplicates(),
        store.timestamp_tokens(package_id).no_duplicates(),
        store.tag_tokens(package_id).no_duplicates(),
{
    law_tokens_distinct(
        store.versions.len() as int,
        |i: int| store.versions[i].package_id == package_id,
        |i: int| store.versions[i].version,
    );
    law_tokens_distinct(
        store.installations.len() as int,
        |i: int| store.owner_of_version(store.installations[i].version_id) == Some(package_id),
        |i: int| store.installations[i].action,
    );
    law_tokens_distinct(
        store.installations.len() as int,
        |i: int| store.owner_of_version(store.installations[i].version_id) == Some(package_id),
        |i: int| store.installations[i].timestamp,
    );
    law_tokens_distinct(
        store.package_tags.len() as int,
        |i: int| store.package_tags[i].package_id == package_id,
        |i: int| store.tag_name_of(store.package_tags[i].tag_id),
    );
}

/// The version column of a package names a version if and only if the
/// package has it.
pub proof fn law_version_column_complete(store: Store, package_id: int, version: Seq<char>)
    ensures
        store.version_tokens(package_id).contains(version) <==> store.version_at(
            package_id,
            version,
        ) is Some,
{
    let belongs = |i: int| store.versions[i].package_id == package_id;
    let token = |i: int| store.versions[i].version;
    law_tokens_complete(store.versions.len() as int, belongs, token, version);
    store.lemma_version_at(package_id, version);
    assert(store.version_tokens(package_id) == collect(
        store.versions.len() as int,
        belongs,
        token,
    ));
    if store.version_at(package_id, version) is Some {
        let i = store.version_at(package_id, version)->0;
        assert(belongs(i) && token(i) == version);
    }
    if store.version_tokens(package_id).contains(version) {
        let i = choose|i: int|
            0 <= i < store.versions.len() && #[trigger] belongs(i) && token(i) == version;
        assert(store.versions[i].package_id == package_id && store.versions[i].version
            == version);
    }
}

/// The action column of a package holds at most the two actions that the
/// store accepts, however long the log is.
pub proof fn law_at_most_two_actions(store: Store, package_id: int)
    requires
        store.consistent(),
    ensures
        store.action_tokens(package_id).len() <= 2,
        forall|k: int|
            0 <= k < store.action_tokens(package_id).len() ==> is_action(
                #[trigger] store.action_tokens(package_id)[k],
            ),
{
    let belongs = |i: int|
        store.owner_of_version(store.installations[i].version_id) == Some(package_id);
    let token = |i: int| store.installations[i].action;
    let n = store.installations.len() as int;
    let column = store.action_tokens(package_id);
    assert(column == collect(n, belongs, token));
    law_tokens_distinct(n, belongs, token);
    assert forall|k: int| 0 <= k < column.len() implies is_action(#[trigger] column[k]) by {
        law_tokens_complete(n, belongs, token, column[k]);
        assert(column.contains(column[k]));
        let i = choose|i: int| 0 <= i < n && #[trigger] belongs(i) && token(i) == column[k];
        assert(is_action(store.installations[i].action));
    }
    if column.len() >= 3 {
        assert(is_action(column[0]) && is_action(column[1]) && is_action(column[2]));
        assert(column[0] != column[1] && column[0] != column[2] && column[1] != column[2]);
    }
}

/// Any two texts can be compared.
pub proof fn law_order_total(a: Seq<char>, b: Seq<char>, i: int)
    requires
        0 <= i,
    ensures
        le_from(a, b, i) || le_from(b, a, i),
    decreases a.len() - i,
{
    if i < a.len() && i < b.len() && a[i] == b[i] {
        law_order_total(a, b, i + 1);
    }
}

/// What comes no later than a text that comes no later than a third, comes
/// no later than the third.
pub proof fn law_order_transitive(a: Seq<char>, b: Seq<char>, c: Seq<char>, i: int)
    requires
        0 <= i,
        le_from(a, b, i),
        le_from(b, c, i),
    ensures
        le_from(a, c, i),
    decreases a.len() - i,
{
    if i < a.len() && i < b.len() && i < c.len() && a[i] == b[i] && b[i] == c[i] {
        law_order_transitive(a, b, c, i + 1);
    }
}

/// Whether the names at the positions of `order` never fall.
pub open spec fn names_rise(order: Seq<int>, names: Seq<Seq<char>>) -> bool {
    forall|i: int, j: int|
        0 <= i < j < order.len() ==> text_le(
            names[#[trigger] order[i]],
            names[#[trigger] order[j]],
        )
}

/// To put a position into an order adds that position and nothing else, and
/// where the names rose along the order they still do.
pub proof fn law_placed(order: Seq<int>, k: int, names: Seq<Seq<char>>)
    ensures
        placed(order, k, names).len() == order.len() + 1,
        placed(order, k, names).contains(k),
        forall|x: int| order.contains(x) ==> placed(order, k, names).contains(x),
        forall|x: int| placed(order, k, names).contains(x) ==> x == k || order.contains(x),
        order.no_duplicates() && !order.contains(k) ==> placed(order, k, names).no_duplicates(),
        names_rise(order, names) ==> names_rise(placed(order, k, names), names),
    decreases order.len(),
{
    let out = placed(order, k, names);
    if order.len() == 0 {
        assert(out[0] == k);
    } else if text_le(names[order.last()], names[k]) {
        assert(out[order.len() as int] == k);
        assert forall|x: int| order.contains(x) implies out.contains(x) by {
            let at = choose|at: int| 0 <= at < order.len() && order[at] == x;
            assert(out[at] == x);
        }
        assert forall|x: int| out.contains(x) implies x == k || order.contains(x) by {
            let at = choose|at: int| 0 <= at < out.len() && out[at] == x;
            if at < order.len() {
                assert(order[at] == x);
            }
        }
        if names_rise(order, names) {
            assert forall|i: int, j: int| 0 <= i < j < out.len() implies text_le(
                names[#[trigger] out[i]],
                names[#[trigger] out[j]],
            ) by {
                if j == order.len() {
                    if i < order.len() - 1 {
                        assert(text_le(names[order[i]], names[order[order.len() - 1]]));
                        law_order_transitive(names[order[i]], names[order.last()], names[k], 0);
                    }
                } else {
                    assert(text_le(names[order[i]], names[order[j]]));
                }
            }
        }
    } else {
        let shorter = order.drop_last();
        let last = order.last();
        let inner = placed(shorter, k, names);
        law_placed(shorter, k, names);
        assert(out == inner.push(last));
        let at_k = choose|at: int| 0 <= at < inner.len() && inner[at] == k;
        assert(out[at_k] == k);
        assert forall|x: int| order.contains(x) implies out.contains(x) by {
            let at = choose|at: int| 0 <= at < order.len() && order[at] == x;
            if at < shorter.len() {
                assert(shorter[at] == x);
                assert(shorter.contains(x));
                assert(inner.contains(x));
                let to = choose|to: int| 0 <= to < inner.len() && inner[to] == x;
                assert(out[to] == x);
            } else {
                assert(out[inner.len() as int] == x);
            }
        }
        assert forall|x: int| out.contains(x) implies x == k || order.contains(x) by {
            let at = choose|at: int| 0 <= at < out.len() && out[at] == x;
            if at < inner.len() {
                assert(inner[at] == x);
                assert(inner.contains(x));
                if x != k {
                    assert(shorter.contains(x));
                    let from = choose|from: int| 0 <= from < shorter.len() && shorter[from] == x;
                    assert(order[from] == x);
                }
            } else {
                assert(order[order.len() - 1] == x);
            }
        }
        if order.no_duplicates() && !order.contains(k) {
            assert(shorter.no_duplicates());
            assert(!shorter.contains(k)) by {
                if shorter.contains(k) {
                    let from = choose|from: int| 0 <= from < shorter.len() && shorter[from] == k;
                    assert(order[from] == k);
                }
            }
            assert(order[order.len() - 1] == last);
            assert(order.contains(last));
            assert(!inner.contains(last)) by {
                if inner.contains(last) {
                    assert(shorter.contains(last));
                    let from = choose|from: int|
                        0 <= from < shorter.len() && shorter[from] == last;
                    assert(order[from] == order[order.len() - 1]);
                }
            }
            assert forall|i: int, j: int| 0 <= i < out.len() && 0 <= j < out.len() && i
                != j implies out[i] != out[j] by {
                if i < inner.len() && j < inner.len() {
                    assert(inner[i] != inner[j]);
                } else if i < inner.len() {
                    assert(inner.contains(inner[i]));
                } else {
                    assert(inner.contains(inner[j]));
                }
            }
        }
        if names_rise(order, names) {
            assert(names_rise(shorter, names)) by {
                assert forall|i: int, j: int| 0 <= i < j < shorter.len() implies text_le(
                    names[#[trigger] shorter[i]],
                    names[#[trigger] shorter[j]],
                ) by {
                    assert(text_le(names[order[i]], names[order[j]]));
                }
            }
            assert forall|i: int, j: int| 0 <= i < j < out.len() implies text_le(
                names[#[trigger] out[i]],
                names[#[trigger] out[j]],
            ) by {
                if j < inner.len() {
                    assert(text_le(names[inner[i]], names[inner[j]]));
                } else {
                    assert(inner.contains(inner[i]));
                    if inner[i] == k {
                        law_order_total(names[last], names[k], 0);
                    } else {
                        assert(shorter.contains(inner[i]));
                        let from = choose|from: int|
                            0 <= from < shorter.len() && shorter[from] == inner[i];
                        assert(order[from] == inner[i]);
                        assert(text_le(names[order[from]], names[order[order.len() - 1]]));
                    }
                }
            }
        }
    }
}

/// The order by name holds each of the first `n` positions once, and the
/// names rise along it.
pub proof fn law_name_order(names: Seq<Seq<char>>, n: int)
    requires
        0 <= n,
    ensures
        name_order(names, n).len() == n,
        name_order(names, n).no_duplicates(),
        forall|x: int| name_order(names, n).contains(x) <==> 0 <= x < n,
        names_rise(name_order(names, n), names),
    decreases n,
{
    if n > 0 {
        let before = name_order(names, n - 1);
        let now = name_order(names, n);
        law_name_order(names, n - 1);
        law_placed(before, n - 1, names);
        assert(!before.contains(n - 1));
        assert forall|x: int| now.contains(x) <==> 0 <= x < n by {
            if now.contains(x) {
                if x != n - 1 {
                    assert(before.contains(x));
                }
            }
            if 0 <= x < n - 1 {
                assert(before.contains(x));
            }
        }
    }
}

/// The listing has one row for each package, and the package names rise
/// along it.
pub proof fn law_listing_ordered(store: Store)
    ensures
        store.listing().len() == store.packages.len(),
        forall|k: int|
            0 <= k < store.packages.len() ==> exists|i: int|
                0 <= i < store.listing().len() && store.listing()[i] == #[trigger] store.summary(
                    k,
                ),
        forall|i: int, j: int|
            0 <= i < j < store.listing().len() ==> text_le(
                (#[trigger] store.listing()[i]).package_name,
                (#[trigger] store.listing()[j]).package_name,
            ),
{
    let names = store.package_names();
    let n = store.packages.len() as int;
    let order = name_order(names, n);
    law_name_order(names, n);
    assert forall|k: int| 0 <= k < n implies exists|i: int|
        0 <= i < store.listing().len() && store.listing()[i] == #[trigger] store.summary(k) by {
        assert(order.contains(k));
        let i = choose|i: int| 0 <= i < order.len() && order[i] == k;
        assert(store.listing()[i] == store.summary(k));
    }
    assert forall|i: int, j: int| 0 <= i < j < store.listing().len() implies text_le(
        (#[trigger] store.listing()[i]).package_name,
        (#[trigger] store.listing()[j]).package_name,
    ) by {
        assert(order.contains(order[i]));
        assert(order.contains(order[j]));
        assert(text_le(names[order[i]], names[order[j]]));
    }
}

} // verus!
