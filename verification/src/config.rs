//! The settings of a build: from the options of the command line alone, or
//! from a settings file with the options laid over it.

use vstd::prelude::*;
use crate::entry::{Config, ConfigView};
use crate::text::join3;

verus! {

/// Why no settings could be had.
#[derive(Debug, PartialEq, Eq)]
pub enum CliError {
    /// A setting that a build needs is missing; its name is given.
    MissingArg(String),
    /// There is no settings file; the path that was tried is given.
    MissingConfig(String),
}

/// A `CliError` as a mathematical value.
pub enum CliErrorView {
    MissingArg(Seq<char>),
    MissingConfig(Seq<char>),
}

impl DeepView for CliError {
    type V = CliErrorView;

    open spec fn deep_view(&self) -> CliErrorView {
        match *self {
            CliError::MissingArg(name) => CliErrorView::MissingArg(name@),
            CliError::MissingConfig(path) => CliErrorView::MissingConfig(path@),
        }
    }
}

/// What the error says to the user.
pub open spec fn cli_message(e: CliErrorView) -> Seq<char> {
    match e {
        CliErrorView::MissingArg(name) => "You must provide "@ + name
            + " either in a config or via the CLI arguments"@,
        CliErrorView::MissingConfig(path) => "No config file was found ("@ + path + ")"@,
    }
}

impl CliError {
    /// What the error says to the user.
    pub fn message(&self) -> (r: String)
        ensures
            r@ == cli_message(self.deep_view()),
    {
        match self {
            CliError::MissingArg(name) => join3(
                "You must provide ",
                name.as_str(),
                " either in a config or via the CLI arguments",
            ),
            CliError::MissingConfig(path) => join3("No config file was found (", path.as_str(), ")"),
        }
    }
}

/// The settings that the options of the command line give by themselves.
/// A build needs `entries`, `template_dir`, `src`, `dest`, `title` and
/// `url`; the first of them that is missing, in this order, is the error.
pub open spec fn settings_of(
    src: Option<Seq<char>>,
    dest: Option<Seq<char>>,
    entries: Option<u8>,
    template_dir: Option<Seq<char>>,
    title: Option<Seq<char>>,
    truncate: Option<u32>,
    description: Option<Seq<char>>,
    url: Option<Seq<char>>,
    author: Option<Seq<char>>,
    share_image: Option<Seq<char>>,
) -> Result<ConfigView, CliErrorView> {
    if entries is None {
        Err(CliErrorView::MissingArg("entries"@))
    } else if template_dir is None {
        Err(CliErrorView::MissingArg("template_dir"@))
    } else if src is None {
        Err(CliErrorView::MissingArg("src"@))
    } else if dest is None {
        Err(CliErrorView::MissingArg("dest"@))
    } else if title is None {
        Err(CliErrorView::MissingArg("title"@))
    } else if url is None {
        Err(CliErrorView::MissingArg("url"@))
    } else {
        Ok(
            ConfigView {
                entries: entries->0,
                template_dir: template_dir->0,
                src: src->0,
                dest: dest->0,
                title: title->0,
                url: url->0,
                truncate,
                description,
                author,
                share_image,
            },
        )
    }
}

/// The view of settings or of the reason why there are none.
pub open spec fn settings_result(r: Result<Config, CliError>) -> Result<ConfigView, CliErrorView> {
    match r {
        Ok(c) => Ok(c.deep_view()),
        Err(e) => Err(e.deep_view()),
    }
}

/// Makes the settings of a build from the options of the command line.
pub fn parse_args(
    src: Option<String>,
    dest: Option<String>,
    entries: Option<u8>,
    template_dir: Option<String>,
    title: Option<String>,
    truncate: Option<u32>,
    description: Option<String>,
    url: Option<String>,
    author: Option<String>,
    share_image: Option<String>,
) -> (r: Result<Config, CliError>)
    ensures
        settings_result(r) == settings_of(
            src.deep_view(),
            dest.deep_view(),
            entries,
            template_dir.deep_view(),
            title.deep_view(),
            truncate,
            description.deep_view(),
            url.deep_view(),
            author.deep_view(),
            share_image.deep_view(),
        ),
{
    let entries = match entries {
        Some(v) => v,
        None => {
            return Err(CliError::MissingArg("entries".to_owned()));
        },
    };
    let template_dir = match template_dir {
        Some(v) => v,
        None => {
            return Err(CliError::MissingArg("template_dir".to_owned()));
        },
    };
    let src = match src {
        Some(v) => v,
        None => {
            return Err(CliError::MissingArg("src".to_owned()));
        },
    };
    let dest = match dest {
        Some(v) => v,
        None => {
            return Err(CliError::MissingArg("dest".to_owned()));
        },
    };
    let title = match title {
        Some(v) => v,
        None => {
            return Err(CliError::MissingArg("title".to_owned()));
        },
    };
    let url = match url {
        Some(v) => v,
        None => {
            return Err(CliError::MissingArg("url".to_owned()));
        },
    };
    Ok(
        Config {
            entries,
            template_dir,
            src,
            dest,
            title,
            url,
            truncate,
            description,
            author,
            share_image,
        },
    )
}

/// One setting with an option laid over it: the option where it is given.
pub open spec fn overlaid<T>(setting: T, option: Option<T>) -> T {
    match option {
        Some(v) => v,
        None => setting,
    }
}

/// The settings of a file with the options of the command line laid over
/// them. An option that is given replaces the setting. `truncate`,
/// `description` and `author` are taken from the command line even where
/// it leaves them out; the share image always stays that of the file.
pub open spec fn merged(
    data: ConfigView,
    src: Option<Seq<char>>,
    dest: Option<Seq<char>>,
    entries: Option<u8>,
    template_dir: Option<Seq<char>>,
    title: Option<Seq<char>>,
    truncate: Option<u32>,
    description: Option<Seq<char>>,
    url: Option<Seq<char>>,
    author: Option<Seq<char>>,
) -> ConfigView {
    ConfigView {
        entries: overlaid(data.entries, entries),
        template_dir: overlaid(data.template_dir, template_dir),
        src: overlaid(data.src, src),
        dest: overlaid(data.dest, dest),
        title: overlaid(data.title, title),
        url: overlaid(data.url, url),
        truncate,
        description,
        author,
        share_image: data.share_image,
    }
}

fn overlay(setting: String, option: Option<String>) -> (r: String)
    ensures
        r@ == overlaid(setting@, option.deep_view()),
{
    match option {
        Some(v) => v,
        None => setting,
    }
}

/// Lays the options of the command line over the settings of a file.
pub fn merge_args(
    data: Config,
    src: Option<String>,
    dest: Option<String>,
    entries: Option<u8>,
    template_dir: Option<String>,
    title: Option<String>,
    truncate: Option<u32>,
    description: Option<String>,
    url: Option<String>,
    author: Option<String>,
) -> (r: Config)
    ensures
        r.deep_view() == merged(
            data.deep_view(),
            src.deep_view(),
            dest.deep_view(),
            entries,
            template_dir.deep_view(),
            title.deep_view(),
            truncate,
            description.deep_view(),
            url.deep_view(),
            author.deep_view(),
        ),
{
    Config {
        entries: match entries {
            Some(v) => v,
            None => data.entries,
        },
        template_dir: overlay(data.template_dir, template_dir),
        src: overlay(data.src, src),
        dest: overlay(data.dest, dest),
        title: overlay(data.title, title),
        url: overlay(data.url, url),
        truncate,
        description,
        author,
        share_image: data.share_image,
    }
}

} // verus!
