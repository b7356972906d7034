use forget_me_not::command::{Command, TemplateCommand};

fn template(text: &str) -> Command {
    Command::Template(TemplateCommand { template: text.to_string() })
}

#[test]
fn template_puts_the_name_in() {
    assert_eq!(template("install {package_name}").format("cowsay"), "install cowsay");
}

#[test]
fn simple_appends_the_name() {
    let command = Command::Simple("install".to_string());
    assert_eq!(command.format("cowsay"), "install cowsay");
}

#[test]
fn simple_keeps_flags_before_the_name() {
    let command = Command::Simple("upgrade -y".to_string());
    assert_eq!(command.format("vim"), "upgrade -y vim");
}

#[test]
fn template_fills_every_placeholder() {
    let command = template("get {package_name} && pin {package_name}");
    assert_eq!(command.format("jq"), "get jq && pin jq");
}

#[test]
fn template_with_placeholder_in_the_middle() {
    let command = template("install --user {package_name} --assumeyes");
    assert_eq!(
        command.format("org.mozilla.Firefox"),
        "install --user org.mozilla.Firefox --assumeyes"
    );
}

#[test]
fn template_without_placeholder_is_left_alone() {
    assert_eq!(template("upgrade -y").format("cowsay"), "upgrade -y");
}

#[test]
fn template_with_broken_placeholder_is_left_alone() {
    assert_eq!(template("remove {package_name").format("cowsay"), "remove {package_name");
}

#[test]
fn template_that_is_only_the_placeholder() {
    assert_eq!(template("{package_name}").format("cowsay"), "cowsay");
}

#[test]
fn template_with_neighbouring_placeholders() {
    assert_eq!(template("{package_name}{package_name}").format("ab"), "abab");
}

#[test]
fn template_with_nested_braces() {
    assert_eq!(template("{{package_name}}").format("x"), "{x}");
}

#[test]
fn template_is_not_filled_again_from_the_name() {
    assert_eq!(
        template("a {package_name} b").format("{package_name}"),
        "a {package_name} b"
    );
}

#[test]
fn template_agrees_with_replace_on_unicode() {
    let pattern = "installiere «{package_name}» für {package_name}…";
    assert_eq!(
        template(pattern).format("größe"),
        pattern.replace("{package_name}", "größe")
    );
}

#[test]
fn empty_template_and_empty_name() {
    assert_eq!(template("").format("cowsay"), "");
    assert_eq!(template("x{package_name}y").format(""), "xy");
    assert_eq!(Command::Simple("".to_string()).format(""), " ");
}
