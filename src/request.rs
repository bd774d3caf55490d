//! Version requests: what a user asked for, before resolution.
use crate::version_order::lex_compare;
use crate::version_select::same_text;
use std::cmp::Ordering;
use vstd::prelude::*;
use vstd::string::*;

verus! {

/// A requested version of a tool; each variant holds the plugin name first.
#[derive(Debug, Clone, PartialEq, Eq, Hash)]
pub enum ToolVersionRequest {
    /// An exact or fuzzy version token.
    Version(String, String),
    /// The highest version with this prefix.
    Prefix(String, String),
    /// A source-control reference.
    Ref(String, String),
    /// A local installation at this path.
    Path(String, String),
    /// The tool installed on the system.
    System(String),
}

pub enum RequestView {
    Version(Seq<char>, Seq<char>),
    Prefix(Seq<char>, Seq<char>),
    Ref(Seq<char>, Seq<char>),
    Path(Seq<char>, Seq<char>),
    System(Seq<char>),
}

impl View for ToolVersionRequest {
    type V = RequestView;

    open spec fn view(&self) -> RequestView {
        match self {
            ToolVersionRequest::Version(p, v) => RequestView::Version(p@, v@),
            ToolVersionRequest::Prefix(p, v) => RequestView::Prefix(p@, v@),
            ToolVersionRequest::Ref(p, v) => RequestView::Ref(p@, v@),
            ToolVersionRequest::Path(p, v) => RequestView::Path(p@, v@),
            ToolVersionRequest::System(p) => RequestView::System(p@),
        }
    }
}

/// The specifier could not be read: a `kind:` prefix other than `ref`,
/// `prefix` or `path`.
#[derive(Debug, Clone, PartialEq, Eq)]
pub struct InvalidRequest {
    pub specifier: String,
}

/// Position of the first `:` in `s` at or after `i`, if any.
pub open spec fn colon_from(s: Seq<char>, i: int) -> Option<int>
    decreases s.len() - i,
{
    if i < 0 || i >= s.len() {
        None
    } else if s[i] == ':' {
        Some(i)
    } else {
        colon_from(s, i + 1)
    }
}

/// `s` cut at its first `:`, if it has one.
pub open spec fn split_colon(s: Seq<char>) -> Option<(Seq<char>, Seq<char>)> {
    match colon_from(s, 0) {
        Some(i) => Some((s.take(i), s.skip(i + 1))),
        None => None,
    }
}

/// The request that specifier `s` for plugin `p` denotes, or `None` for an
/// unknown `kind:` prefix.
pub open spec fn parse_request(p: Seq<char>, s: Seq<char>) -> Option<RequestView> {
    match split_colon(s) {
        Some((kind, rest)) => if kind == "ref"@ {
            Some(RequestView::Ref(p, rest))
        } else if kind == "prefix"@ {
            Some(RequestView::Prefix(p, rest))
        } else if kind == "path"@ {
            Some(RequestView::Path(p, rest))
        } else {
            None
        },
        None => if s == "system"@ {
            Some(RequestView::System(p))
        } else {
            Some(RequestView::Version(p, s))
        },
    }
}

pub open spec fn request_plugin(r: RequestView) -> Seq<char> {
    match r {
        RequestView::Version(p, _) => p,
        RequestView::Prefix(p, _) => p,
        RequestView::Ref(p, _) => p,
        RequestView::Path(p, _) => p,
        RequestView::System(p) => p,
    }
}

/// The version string a request renders to.
pub open spec fn request_version(r: RequestView) -> Seq<char> {
    match r {
        RequestView::Version(_, v) => v,
        RequestView::Prefix(_, v) => "prefix-"@ + v,
        RequestView::Ref(_, v) => "ref-"@ + v,
        RequestView::Path(_, v) => "path-"@ + v,
        RequestView::System(_) => "system"@,
    }
}

/// The specifier that reads back as this request.
pub open spec fn request_specifier(r: RequestView) -> Seq<char> {
    match r {
        RequestView::Version(_, v) => v,
        RequestView::Prefix(_, v) => "prefix:"@ + v,
        RequestView::Ref(_, v) => "ref:"@ + v,
        RequestView::Path(_, v) => "path:"@ + v,
        RequestView::System(_) => "system"@,
    }
}

pub proof fn lemma_colon_from(s: Seq<char>, j: int)
    requires
        0 <= j,
    ensures
        colon_from(s, j) matches Some(i) ==> j <= i < s.len() && s[i] == ':',
        colon_from(s, j) is None ==> forall|k: int| j <= k < s.len() ==> s[k] != ':',
    decreases s.len() - j,
{
    if j < s.len() && s[j] != ':' {
        lemma_colon_from(s, j + 1);
    }
}

/// Finds the first `:` of `s`.
pub fn find_colon(s: &str) -> (r: Option<usize>)
    ensures
        match r {
            Some(i) => colon_from(s@, 0) == Some(i as int),
            None => colon_from(s@, 0) is None,
        },
{
    let n = s.unicode_len();
    let mut i: usize = 0;
    while i < n
        invariant
            n == s@.len(),
            i <= n,
            colon_from(s@, 0) == colon_from(s@, i as int),
        decreases n - i,
    {
        if s.get_char(i) == ':' {
            return Some(i);
        }
        i = i + 1;
    }
    None
}

fn concat_str(a: &str, b: &str) -> (r: String)
    ensures
        r@ == a@ + b@,
{
    let mut r = String::from_str(a);
    r.append(b);
    r
}

impl ToolVersionRequest {
    /// Reads a specifier: `ref:<r>`, `prefix:<p>`, `path:<p>`, `system`, or a
    /// plain version token.
    pub fn new(plugin_name: String, s: &str) -> (r: Result<ToolVersionRequest, InvalidRequest>)
        ensures
            match r {
                Ok(req) => parse_request(plugin_name@, s@) == Some(req@),
                Err(e) => parse_request(plugin_name@, s@) is None && e.specifier@ == s@,
            },
    {
        proof {
            lemma_colon_from(s@, 0);
        }
        match find_colon(s) {
            Some(i) => {
                let n = s.unicode_len();
                let kind = s.substring_char(0, i);
                let rest = String::from_str(s.substring_char(i + 1, n));
                if same_text(kind, "ref") {
                    Ok(ToolVersionRequest::Ref(plugin_name, rest))
                } else if same_text(kind, "prefix") {
                    Ok(ToolVersionRequest::Prefix(plugin_name, rest))
                } else if same_text(kind, "path") {
                    Ok(ToolVersionRequest::Path(plugin_name, rest))
                } else {
                    Err(InvalidRequest { specifier: String::from_str(s) })
                }
            },
            None => {
                if same_text(s, "system") {
                    Ok(ToolVersionRequest::System(plugin_name))
                } else {
                    Ok(ToolVersionRequest::Version(plugin_name, String::from_str(s)))
                }
            },
        }
    }

    /// The plugin the request is for.
    pub fn plugin_name(&self) -> (r: &String)
        ensures
            r@ == request_plugin(self@),
    {
        match self {
            ToolVersionRequest::Version(p, _) => p,
            ToolVersionRequest::Prefix(p, _) => p,
            ToolVersionRequest::Ref(p, _) => p,
            ToolVersionRequest::Path(p, _) => p,
            ToolVersionRequest::System(p) => p,
        }
    }

    /// The version string: the token itself, `prefix-<p>`, `ref-<r>`,
    /// `path-<p>` or `system`.
    pub fn version(&self) -> (r: String)
        ensures
            r@ == request_version(self@),
    {
        match self {
            ToolVersionRequest::Version(_, v) => v.clone(),
            ToolVersionRequest::Prefix(_, p) => concat_str("prefix-", p.as_str()),
            ToolVersionRequest::Ref(_, r) => concat_str("ref-", r.as_str()),
            ToolVersionRequest::Path(_, p) => concat_str("path-", p.as_str()),
            ToolVersionRequest::System(_) => String::from_str("system"),
        }
    }

    /// The specifier that `new` reads back as this request.
    pub fn to_string(&self) -> (r: String)
        ensures
            r@ == request_specifier(self@),
    {
        match self {
            ToolVersionRequest::Version(_, v) => v.clone(),
            ToolVersionRequest::Prefix(_, p) => concat_str("prefix:", p.as_str()),
            ToolVersionRequest::Ref(_, r) => concat_str("ref:", r.as_str()),
            ToolVersionRequest::Path(_, p) => concat_str("path:", p.as_str()),
            ToolVersionRequest::System(_) => String::from_str("system"),
        }
    }

    /// A copy with the same view.
    pub fn duplicate(&self) -> (r: ToolVersionRequest)
        ensures
            r@ == self@,
    {
        match self {
            ToolVersionRequest::Version(p, v) => ToolVersionRequest::Version(p.clone(), v.clone()),
            ToolVersionRequest::Prefix(p, v) => ToolVersionRequest::Prefix(p.clone(), v.clone()),
            ToolVersionRequest::Ref(p, v) => ToolVersionRequest::Ref(p.clone(), v.clone()),
            ToolVersionRequest::Path(p, v) => ToolVersionRequest::Path(p.clone(), v.clone()),
            ToolVersionRequest::System(p) => ToolVersionRequest::System(p.clone()),
        }
    }

    /// Requests are ordered by their version strings.
    pub fn compare(&self, other: &ToolVersionRequest) -> (r: Ordering)
        ensures
            crate::version_order::ordering_value(r) == crate::version_order::lex_cmp(
                request_version(self@),
                request_version(other@),
            ),
    {
        let a = self.version();
        let b = other.version();
        lex_compare(a.as_str(), b.as_str())
    }
}

} // verus!
