//! Which syntax highlights a file: the lookups tried, in order, when the
//! syntax set does not recognise the file by itself.
use vstd::prelude::*;

use crate::text::{chars_of, string_of_range, to_lowercase, unicode_lowercase};
use crate::theme::{ends_with_lit, eq_lit, has_suffix, starts_with_lit};

verus! {

/// A lookup in the syntax set: by a syntax's name, or by a file extension.
pub enum SyntaxLookup {
    ByName(String),
    ByExtension(String),
}

pub enum LookupV {
    ByName(Seq<char>),
    ByExtension(Seq<char>),
}

impl View for SyntaxLookup {
    type V = LookupV;

    open spec fn view(&self) -> LookupV {
        match self {
            SyntaxLookup::ByName(n) => LookupV::ByName(n@),
            SyntaxLookup::ByExtension(e) => LookupV::ByExtension(e@),
        }
    }
}

/// The extension of a file name, as `Path::extension` takes it: what follows
/// the last dot, unless there is no dot or the only one starts the name.
pub open spec fn extension(name: Seq<char>) -> Option<Seq<char>> {
    match last_dot(name, name.len() as int) {
        Some(k) => if k == 0 {
            None
        } else {
            Some(name.skip(k + 1))
        },
        None => None,
    }
}

/// The last dot of `name` before position `end`.
pub open spec fn last_dot(name: Seq<char>, end: int) -> Option<int>
    decreases end,
{
    if end <= 0 {
        None
    } else if name[end - 1] == '.' {
        Some(end - 1)
    } else {
        last_dot(name, end - 1)
    }
}

proof fn lemma_last_dot_bound(name: Seq<char>, end: int)
    requires
        end <= name.len(),
    ensures
        last_dot(name, end) matches Some(k) ==> 0 <= k < end && name[k] == '.',
    decreases end,
{
    if end > 0 && name[end - 1] != '.' {
        lemma_last_dot_bound(name, end - 1);
    }
}

/// The lookups for a file named `name` (lower case) with extension `ext`
/// (lower case, empty when there is none), most specific first.
pub open spec fn lookups(name: Seq<char>, ext: Seq<char>) -> Seq<LookupV> {
    if has_suffix(name, ".tsx"@) || ext == "tsx"@ {
        seq![LookupV::ByName("TSX"@), LookupV::ByExtension("tsx"@), LookupV::ByName("TypeScript"@)]
    } else if has_suffix(name, ".ts"@) || ext == "ts"@ || ext == "mts"@ || ext == "cts"@ {
        seq![LookupV::ByName("TypeScript"@), LookupV::ByExtension("ts"@)]
    } else if has_suffix(name, ".jsx"@) || ext == "jsx"@ {
        seq![LookupV::ByName("JSX"@), LookupV::ByExtension("jsx"@), LookupV::ByName("JavaScript"@)]
    } else if ext == "mjs"@ || ext == "cjs"@ {
        seq![LookupV::ByName("JavaScript"@)]
    } else if crate::text::has_prefix(name, "dockerfile"@) {
        seq![LookupV::ByName("Dockerfile"@)]
    } else if crate::text::has_prefix(name, "makefile"@) {
        seq![LookupV::ByName("Makefile"@)]
    } else if ext == "yml"@ || ext == "yaml"@ {
        seq![LookupV::ByName("YAML"@), LookupV::ByExtension("yaml"@)]
    } else if ext == "toml"@ {
        seq![LookupV::ByName("TOML"@), LookupV::ByExtension("toml"@)]
    } else if ext == "md"@ || ext == "mdx"@ || ext == "markdown"@ {
        seq![LookupV::ByName("Markdown"@), LookupV::ByExtension("md"@)]
    } else if ext.len() > 0 {
        seq![LookupV::ByExtension(ext)]
    } else {
        Seq::empty()
    }
}

fn last_dot_of(v: &Vec<char>) -> (r: Option<usize>)
    ensures
        match last_dot(v@, v@.len() as int) {
            None => r is None,
            Some(k) => r == Some(k as usize),
        },
{
    let mut end = v.len();
    while end > 0
        invariant
            end <= v@.len(),
            last_dot(v@, v@.len() as int) == last_dot(v@, end as int),
        decreases end,
    {
        if v[end - 1] == '.' {
            return Some(end - 1);
        }
        end = end - 1;
    }
    None
}

/// The extension of the file name `name`.
pub fn file_extension(name: &str) -> (r: Option<String>)
    ensures
        match extension(name@) {
            None => r is None,
            Some(e) => r matches Some(x) && x@ == e,
        },
{
    let v = chars_of(name);
    proof {
        lemma_last_dot_bound(v@, v@.len() as int);
    }
    match last_dot_of(&v) {
        Some(k) => {
            if k == 0 {
                None
            } else {
                let e = string_of_range(&v, k + 1, v.len());
                assert(v@.subrange(k + 1, v@.len() as int) =~= v@.skip(k + 1));
                Some(e)
            }
        },
        None => None,
    }
}

fn name(s: &str) -> (r: SyntaxLookup)
    ensures
        r@ == LookupV::ByName(s@),
{
    SyntaxLookup::ByName(String::from_str(s))
}

fn by_ext(s: &str) -> (r: SyntaxLookup)
    ensures
        r@ == LookupV::ByExtension(s@),
{
    SyntaxLookup::ByExtension(String::from_str(s))
}

/// The lookups to try for the file named `file_name`, when the syntax set
/// does not know the file by itself; plain text comes after them all.
pub fn syntax_lookups(file_name: &str) -> (r: Vec<SyntaxLookup>)
    ensures
        r@.map_values(|l: SyntaxLookup| l@) == lookups(
            unicode_lowercase(file_name@),
            match extension(file_name@) {
                Some(e) => unicode_lowercase(e),
                None => Seq::empty(),
            },
        ),
{
    let lower = to_lowercase(file_name);
    let n = chars_of(lower.as_str());
    let ext = match file_extension(file_name) {
        Some(e) => to_lowercase(e.as_str()),
        None => String::new(),
    };
    let x = chars_of(ext.as_str());
    let r = if ends_with_lit(&n, ".tsx") || eq_lit(&x, "tsx") {
        vec![name("TSX"), by_ext("tsx"), name("TypeScript")]
    } else if ends_with_lit(&n, ".ts") || eq_lit(&x, "ts") || eq_lit(&x, "mts") || eq_lit(&x, "cts") {
        vec![name("TypeScript"), by_ext("ts")]
    } else if ends_with_lit(&n, ".jsx") || eq_lit(&x, "jsx") {
        vec![name("JSX"), by_ext("jsx"), name("JavaScript")]
    } else if eq_lit(&x, "mjs") || eq_lit(&x, "cjs") {
        vec![name("JavaScript")]
    } else if starts_with_lit(&n, "dockerfile") {
        vec![name("Dockerfile")]
    } else if starts_with_lit(&n, "makefile") {
        vec![name("Makefile")]
    } else if eq_lit(&x, "yml") || eq_lit(&x, "yaml") {
        vec![name("YAML"), by_ext("yaml")]
    } else if eq_lit(&x, "toml") {
        vec![name("TOML"), by_ext("toml")]
    } else if eq_lit(&x, "md") || eq_lit(&x, "mdx") || eq_lit(&x, "markdown") {
        vec![name("Markdown"), by_ext("md")]
    } else if x.len() > 0 {
        vec![SyntaxLookup::ByExtension(ext)]
    } else {
        Vec::new()
    };
    assert(r@.map_values(|l: SyntaxLookup| l@) =~= lookups(n@, x@));
    r
}

} // verus!
