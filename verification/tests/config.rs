use site_gen::config::{merge_args, parse_args, CliError};
use site_gen::entry::Config;

fn s(t: &str) -> Option<String> {
    Some(t.to_string())
}

fn settings() -> Config {
    Config {
        entries: 5,
        template_dir: "tpl".to_string(),
        src: "src".to_string(),
        dest: "out".to_string(),
        title: "Site".to_string(),
        url: "https://example.com/".to_string(),
        truncate: Some(100),
        description: s("about"),
        author: s("Ada"),
        share_image: s("share.png"),
    }
}

#[test]
fn options_alone_give_settings() {
    let c = parse_args(
        s("src"),
        s("out"),
        Some(3),
        s("tpl"),
        s("Site"),
        Some(120),
        s("about"),
        s("https://example.com/"),
        s("Ada"),
        s("share.png"),
    )
    .unwrap();
    assert_eq!(c.entries, 3);
    assert_eq!(c.template_dir, "tpl");
    assert_eq!(c.src, "src");
    assert_eq!(c.dest, "out");
    assert_eq!(c.title, "Site");
    assert_eq!(c.url, "https://example.com/");
    assert_eq!(c.truncate, Some(120));
    assert_eq!(c.description, s("about"));
    assert_eq!(c.author, s("Ada"));
    assert_eq!(c.share_image, s("share.png"));
}

#[test]
fn optional_settings_may_be_left_out() {
    let c = parse_args(s("src"), s("out"), Some(3), s("tpl"), s("Site"), None, None, s("u"), None, None)
        .unwrap();
    assert_eq!(c.truncate, None);
    assert_eq!(c.description, None);
    assert_eq!(c.author, None);
    assert_eq!(c.share_image, None);
}

#[test]
fn first_missing_setting_is_named() {
    let e = parse_args(None, None, None, None, None, None, None, None, None, None).unwrap_err();
    assert_eq!(e, CliError::MissingArg("entries".to_string()));
    let e = parse_args(None, None, Some(1), None, None, None, None, None, None, None).unwrap_err();
    assert_eq!(e, CliError::MissingArg("template_dir".to_string()));
    let e = parse_args(None, None, Some(1), s("t"), None, None, None, None, None, None).unwrap_err();
    assert_eq!(e, CliError::MissingArg("src".to_string()));
    let e = parse_args(s("s"), None, Some(1), s("t"), None, None, None, None, None, None).unwrap_err();
    assert_eq!(e, CliError::MissingArg("dest".to_string()));
    let e = parse_args(s("s"), s("d"), Some(1), s("t"), None, None, None, None, None, None).unwrap_err();
    assert_eq!(e, CliError::MissingArg("title".to_string()));
    let e = parse_args(s("s"), s("d"), Some(1), s("t"), s("T"), None, None, None, None, None).unwrap_err();
    assert_eq!(e, CliError::MissingArg("url".to_string()));
}

#[test]
fn messages_are_worded_for_the_user() {
    assert_eq!(
        CliError::MissingArg("entries".to_string()).message(),
        "You must provide entries either in a config or via the CLI arguments"
    );
    assert_eq!(
        CliError::MissingConfig(".site-gen.toml".to_string()).message(),
        "No config file was found (.site-gen.toml)"
    );
}

#[test]
fn options_replace_settings_of_the_file() {
    let c = merge_args(
        settings(),
        s("src2"),
        s("out2"),
        Some(9),
        s("tpl2"),
        s("Site2"),
        Some(7),
        s("about2"),
        s("https://example.org/"),
        s("Bob"),
    );
    assert_eq!(c.entries, 9);
    assert_eq!(c.template_dir, "tpl2");
    assert_eq!(c.src, "src2");
    assert_eq!(c.dest, "out2");
    assert_eq!(c.title, "Site2");
    assert_eq!(c.url, "https://example.org/");
    assert_eq!(c.truncate, Some(7));
    assert_eq!(c.description, s("about2"));
    assert_eq!(c.author, s("Bob"));
    assert_eq!(c.share_image, s("share.png"));
}

#[test]
fn options_left_out_keep_the_file_but_for_three() {
    let c = merge_args(settings(), None, None, None, None, None, None, None, None, None);
    assert_eq!(c.entries, 5);
    assert_eq!(c.template_dir, "tpl");
    assert_eq!(c.src, "src");
    assert_eq!(c.dest, "out");
    assert_eq!(c.title, "Site");
    assert_eq!(c.url, "https://example.com/");
    assert_eq!(c.truncate, None);
    assert_eq!(c.description, None);
    assert_eq!(c.author, None);
    assert_eq!(c.share_image, s("share.png"));
}
