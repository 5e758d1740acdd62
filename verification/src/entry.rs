//! The records that a build hands from step to step: the settings, the
//! entries, and what the templates are given.

use vstd::prelude::*;
use crate::helpers::Timestamp;

verus! {

/// The settings of a build.
#[derive(Debug)]
pub struct Config {
    /// How many entries an index page holds; at least one.
    pub entries: u8,
    pub template_dir: String,
    pub src: String,
    pub dest: String,
    pub title: String,
    /// The address of the site; it must name a host.
    pub url: String,
    /// The length that excerpts are shortened to, where it is not 300.
    pub truncate: Option<u32>,
    pub description: Option<String>,
    /// The author of entries that name none.
    pub author: Option<String>,
    pub share_image: Option<String>,
}

/// A `Config` as a mathematical value.
pub struct ConfigView {
    pub entries: u8,
    pub template_dir: Seq<char>,
    pub src: Seq<char>,
    pub dest: Seq<char>,
    pub title: Seq<char>,
    pub url: Seq<char>,
    pub truncate: Option<u32>,
    pub description: Option<Seq<char>>,
    pub author: Option<Seq<char>>,
    pub share_image: Option<Seq<char>>,
}

impl DeepView for Config {
    type V = ConfigView;

    open spec fn deep_view(&self) -> ConfigView {
        ConfigView {
            entries: self.entries,
            template_dir: self.template_dir@,
            src: self.src@,
            dest: self.dest@,
            title: self.title@,
            url: self.url@,
            truncate: self.truncate,
            description: self.description.deep_view(),
            author: self.author.deep_view(),
            share_image: self.share_image.deep_view(),
        }
    }
}

/// A document as it was read: where it lies, and what it holds.
#[derive(Debug)]
pub struct SourceFile {
    pub path: String,
    pub contents: String,
}

/// A `SourceFile` as a mathematical value.
pub struct SourceFileView {
    pub path: Seq<char>,
    pub contents: Seq<char>,
}

impl DeepView for SourceFile {
    type V = SourceFileView;

    open spec fn deep_view(&self) -> SourceFileView {
        SourceFileView { path: self.path@, contents: self.contents@ }
    }
}

/// One document, read and rendered.
#[derive(Debug)]
pub struct PageData {
    pub rendered_at: Timestamp,
    pub created_at: Timestamp,
    pub raw_text: String,
    pub contents: String,
    pub tags: Option<Vec<String>>,
    pub title: String,
    pub url: String,
    pub hero_image: Option<String>,
    pub share_image: Option<String>,
    pub description: Option<String>,
    pub site_url: String,
    pub domain: String,
    pub author: Option<String>,
    pub year: String,
    pub site_description: Option<String>,
    pub truncated_contents: String,
}

/// A `PageData` as a mathematical value.
pub struct PageDataView {
    pub rendered_at: Timestamp,
    pub created_at: Timestamp,
    pub raw_text: Seq<char>,
    pub contents: Seq<char>,
    pub tags: Option<Seq<Seq<char>>>,
    pub title: Seq<char>,
    pub url: Seq<char>,
    pub hero_image: Option<Seq<char>>,
    pub share_image: Option<Seq<char>>,
    pub description: Option<Seq<char>>,
    pub site_url: Seq<char>,
    pub domain: Seq<char>,
    pub author: Option<Seq<char>>,
    pub year: Seq<char>,
    pub site_description: Option<Seq<char>>,
    pub truncated_contents: Seq<char>,
}

impl DeepView for PageData {
    type V = PageDataView;

    open spec fn deep_view(&self) -> PageDataView {
        PageDataView {
            rendered_at: self.rendered_at,
            created_at: self.created_at,
            raw_text: self.raw_text@,
            contents: self.contents@,
            tags: self.tags.deep_view(),
            title: self.title@,
            url: self.url@,
            hero_image: self.hero_image.deep_view(),
            share_image: self.share_image.deep_view(),
            description: self.description.deep_view(),
            site_url: self.site_url@,
            domain: self.domain@,
            author: self.author.deep_view(),
            year: self.year@,
            site_description: self.site_description.deep_view(),
            truncated_contents: self.truncated_contents@,
        }
    }
}

/// A copy of a string that may be absent.
pub fn copy_text(s: &Option<String>) -> (r: Option<String>)
    ensures
        r == *s,
{
    match s {
        Some(t) => Some(t.clone()),
        None => None,
    }
}

/// A copy of a list of strings.
pub fn copy_texts(v: &Vec<String>) -> (r: Vec<String>)
    ensures
        r@ == v@,
{
    let mut r: Vec<String> = Vec::new();
    let mut i: usize = 0;
    while i < v.len()
        invariant
            i <= v.len(),
            r@ == v@.take(i as int),
        decreases v.len() - i,
    {
        r.push(v[i].clone());
        assert(v@.take(i + 1) == v@.take(i as int).push(v@[i as int]));
        i += 1;
    }
    assert(v@.take(v@.len() as int) == v@);
    r
}

impl Clone for PageData {
    fn clone(&self) -> (r: Self)
        ensures
            r.deep_view() == self.deep_view(),
    {
        PageData {
            rendered_at: self.rendered_at,
            created_at: self.created_at,
            raw_text: self.raw_text.clone(),
            contents: self.contents.clone(),
            tags: match &self.tags {
                Some(t) => Some(copy_texts(t)),
                None => None,
            },
            title: self.title.clone(),
            url: self.url.clone(),
            hero_image: copy_text(&self.hero_image),
            share_image: copy_text(&self.share_image),
            description: copy_text(&self.description),
            site_url: self.site_url.clone(),
            domain: self.domain.clone(),
            author: copy_text(&self.author),
            year: self.year.clone(),
            site_description: copy_text(&self.site_description),
            truncated_contents: self.truncated_contents.clone(),
        }
    }
}

} // verus!
