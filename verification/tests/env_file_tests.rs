use sat_bot::env_file::{parse_env_line, EnvLine};

fn parse(line: &str) -> EnvLine {
    parse_env_line(line)
}

fn variable(name: &str, value: &str) -> EnvLine {
    EnvLine::Variable { name: name.to_string(), value: value.to_string() }
}

#[test]
fn a_line_names_a_variable_and_its_value() {
    assert_eq!(parse("DATABASE_PATH=database.json"), variable("DATABASE_PATH", "database.json"));
    assert_eq!(parse("GUILD_ID=123456789"), variable("GUILD_ID", "123456789"));
}

#[test]
fn white_space_around_name_and_value_is_dropped() {
    assert_eq!(parse("  N2YO_KEY =  abc def \t"), variable("N2YO_KEY", "abc def"));
    assert_eq!(parse("\tA\t=\tb\t"), variable("A", "b"));
    assert_eq!(parse("\u{a0}A\u{2003}=\u{3000}b\u{a0}"), variable("A", "b"));
    assert_eq!(parse("A B = c"), variable("A B", "c"));
}

#[test]
fn only_the_first_equals_sign_splits() {
    assert_eq!(parse("TOKEN=a=b=c"), variable("TOKEN", "a=b=c"));
    assert_eq!(parse("TOKEN=="), variable("TOKEN", "="));
    assert_eq!(parse("URL = https://example.org/?q=1"), variable("URL", "https://example.org/?q=1"));
}

#[test]
fn name_or_value_may_be_empty() {
    assert_eq!(parse("EMPTY="), variable("EMPTY", ""));
    assert_eq!(parse("EMPTY =   "), variable("EMPTY", ""));
    assert_eq!(parse("=value"), variable("", "value"));
    assert_eq!(parse("="), variable("", ""));
}

#[test]
fn blank_lines_and_comments_say_nothing() {
    assert_eq!(parse(""), EnvLine::Skipped);
    assert_eq!(parse("   \t "), EnvLine::Skipped);
    assert_eq!(parse("# a comment"), EnvLine::Skipped);
    assert_eq!(parse("   # KEY=value"), EnvLine::Skipped);
    assert_eq!(parse("#"), EnvLine::Skipped);
}

#[test]
fn a_comment_sign_behind_the_start_is_part_of_the_line() {
    assert_eq!(parse("KEY=value # not a comment"), variable("KEY", "value # not a comment"));
    assert_eq!(parse("KEY#=value"), variable("KEY#", "value"));
}

#[test]
fn a_line_without_equals_sign_cannot_be_read() {
    assert_eq!(parse("DATABASE_PATH"), EnvLine::Malformed);
    assert_eq!(parse("  just words  "), EnvLine::Malformed);
}
