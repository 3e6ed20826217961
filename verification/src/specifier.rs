//! Parsing of the compact resource specifier `resource[.group][/name]`.
//!
//! A token splits on `/` into at most two segments: the resource-and-group
//! part and an optional name. The first segment splits on `.` into the
//! resource kind and the API group (the remaining sub-segments rejoined with
//! `.`, which is simply everything after the first `.`). An empty resource
//! kind is a parse error; a token with more than one `/` is a parse error.

use vstd::prelude::*;
use vstd::string::StrSliceExecFns;
use vstd::string::StringExecFns;

verus! {

/// A parsed resource specifier.
///
/// `name` is a plain string where the empty string means "no name given"
/// (any name). `group` is absent when the token names no API group; a
/// token whose group part rejoins to the empty string (for example a
/// trailing lone `.`) also leaves the group absent rather than explicitly
/// empty.
#[derive(Debug, Clone, PartialEq, Eq)]
pub struct ResourceSpecifier {
    pub resource: String,
    pub name: String,
    pub group: Option<String>,
}

/// Mathematical model of a `ResourceSpecifier`.
pub struct SpecifierView {
    pub resource: Seq<char>,
    pub name: Seq<char>,
    pub group: Option<Seq<char>>,
}

impl View for ResourceSpecifier {
    type V = SpecifierView;

    open spec fn view(&self) -> SpecifierView {
        SpecifierView {
            resource: self.resource@,
            name: self.name@,
            group: match self.group {
                Some(g) => Some(g@),
                None => None,
            },
        }
    }
}

/// A malformed resource specifier; each variant echoes the offending token.
#[derive(Debug, Clone, PartialEq, Eq)]
pub enum ParseError {
    /// The token held more than one `/`.
    TooManyNameSeparators { token: String },
    /// The resource kind (the first `.`-separated sub-segment) was empty.
    EmptyResource { token: String },
}

/// Mathematical model of a `ParseError`.
pub enum ParseErrorView {
    TooManyNameSeparators { token: Seq<char> },
    EmptyResource { token: Seq<char> },
}

impl View for ParseError {
    type V = ParseErrorView;

    open spec fn view(&self) -> ParseErrorView {
        match self {
            ParseError::TooManyNameSeparators { token } => (ParseErrorView::TooManyNameSeparators {
                token: token@,
            }),
            ParseError::EmptyResource { token } => (ParseErrorView::EmptyResource {
                token: token@,
            }),
        }
    }
}

/// The message for a malformed specifier, echoing the offending token.
pub open spec fn parse_error_message(e: ParseErrorView) -> Seq<char> {
    match e {
        ParseErrorView::TooManyNameSeparators { token } => "Expected only resource type or RESOURCE/NAME, got "@
            + token,
        ParseErrorView::EmptyResource { token } => "Can't split resource and group: "@ + token,
    }
}

impl ParseError {
    /// Human-readable description, echoing the offending token verbatim.
    pub fn message(&self) -> (msg: String)
        ensures
            msg@ == parse_error_message(self@),
    {
        match self {
            ParseError::TooManyNameSeparators { token } => {
                let mut msg = String::from_str(
                    "Expected only resource type or RESOURCE/NAME, got ",
                );
                msg.append(token.as_str());
                msg
            },
            ParseError::EmptyResource { token } => {
                let mut msg = String::from_str("Can't split resource and group: ");
                msg.append(token.as_str());
                msg
            },
        }
    }
}

/// Index of the first occurrence of `c` in `s`, if any.
pub open spec fn first_occurrence(s: Seq<char>, c: char) -> Option<int>
    decreases s.len(),
{
    if s.len() == 0 {
        None
    } else if s[0] == c {
        Some(0int)
    } else {
        match first_occurrence(s.drop_first(), c) {
            Some(i) => Some(i + 1),
            None => None,
        }
    }
}

/// `first_occurrence` returns the smallest index holding `c`, and `None`
/// exactly when `c` does not occur.
pub proof fn lemma_first_occurrence(s: Seq<char>, c: char)
    ensures
        match first_occurrence(s, c) {
            Some(i) => 0 <= i < s.len() && s[i] == c && (forall|j: int| 0 <= j < i ==> s[j] != c),
            None => forall|j: int| 0 <= j < s.len() ==> s[j] != c,
        },
    decreases s.len(),
{
    if s.len() == 0 {
    } else if s[0] == c {
    } else {
        lemma_first_occurrence(s.drop_first(), c);
        match first_occurrence(s.drop_first(), c) {
            Some(i) => {
                assert(s[i + 1] == s.drop_first()[i]);
                assert forall|j: int| 0 <= j < i + 1 implies s[j] != c by {
                    if j > 0 {
                        assert(s[j] == s.drop_first()[j - 1]);
                    }
                }
            },
            None => {
                assert forall|j: int| 0 <= j < s.len() implies s[j] != c by {
                    if j > 0 {
                        assert(s[j] == s.drop_first()[j - 1]);
                    }
                }
            },
        }
    }
}

/// Model of parsing the resource-and-group segment `head` of the whole
/// token `t`, with `name` already split off.
pub open spec fn parse_head(t: Seq<char>, head: Seq<char>, name: Seq<char>) -> Result<
    SpecifierView,
    ParseErrorView,
> {
    match first_occurrence(head, '.') {
        None => if head.len() == 0 {
            Err(ParseErrorView::EmptyResource { token: t })
        } else {
            Ok(SpecifierView { resource: head, name, group: None })
        },
        Some(i) => if i == 0 {
            Err(ParseErrorView::EmptyResource { token: t })
        } else {
            let g = head.subrange(i + 1, head.len() as int);
            Ok(SpecifierView {
                resource: head.subrange(0, i),
                name,
                group: if g.len() == 0 {
                    None
                } else {
                    Some(g)
                },
            })
        },
    }
}

/// Model of parsing a whole specifier token.
pub open spec fn parse_spec(t: Seq<char>) -> Result<SpecifierView, ParseErrorView> {
    match first_occurrence(t, '/') {
        None => parse_head(t, t, Seq::<char>::empty()),
        Some(j) => {
            let rest = t.subrange(j + 1, t.len() as int);
            if first_occurrence(rest, '/') is Some {
                Err(ParseErrorView::TooManyNameSeparators { token: t })
            } else {
                parse_head(t, t.subrange(0, j), rest)
            }
        },
    }
}

/// Index of the first occurrence of `c` in `s`, if any.
fn find_char(s: &str, c: char) -> (found: Option<usize>)
    ensures
        match found {
            Some(i) => i < s@.len() && first_occurrence(s@, c) == Some(i as int),
            None => first_occurrence(s@, c) == None::<int>,
        },
{
    let n: usize = s.unicode_len();
    let mut i: usize = 0;
    while i < n
        invariant
            n == s@.len(),
            i <= n,
            forall|j: int| 0 <= j < i ==> s@[j] != c,
        decreases n - i,
    {
        if s.get_char(i) == c {
            proof {
                lemma_first_occurrence(s@, c);
                match first_occurrence(s@, c) {
                    Some(k) => {
                        if k < i {
                            assert(s@[k] != c);
                        }
                        if i < k {
                            assert(s@[i as int] != c);
                        }
                    },
                    None => {
                        assert(s@[i as int] != c);
                    },
                }
            }
            return Some(i);
        }
        i = i + 1;
    }
    proof {
        lemma_first_occurrence(s@, c);
        match first_occurrence(s@, c) {
            Some(k) => {
                assert(s@[k] != c);
            },
            None => {},
        }
    }
    None
}

proof fn lemma_first_occurrence_is(s: Seq<char>, c: char, i: int)
    requires
        0 <= i < s.len(),
        s[i] == c,
        forall|j: int| 0 <= j < i ==> s[j] != c,
    ensures
        first_occurrence(s, c) == Some(i),
{
    lemma_first_occurrence(s, c);
    match first_occurrence(s, c) {
        Some(k) => {
            if k < i {
                assert(s[k] != c);
            }
            if i < k {
                assert(s[i] != c);
            }
        },
        None => {
            assert(s[i] != c);
        },
    }
}

proof fn lemma_first_occurrence_none(s: Seq<char>, c: char)
    requires
        forall|j: int| 0 <= j < s.len() ==> s[j] != c,
    ensures
        first_occurrence(s, c) == None::<int>,
{
    lemma_first_occurrence(s, c);
    match first_occurrence(s, c) {
        Some(k) => {
            assert(s[k] != c);
        },
        None => {},
    }
}

/// Law: a non-empty token holding neither `/` nor `.` parses to itself as
/// the resource kind, with no API group and no name.
pub proof fn lemma_parse_bare_resource(token: Seq<char>)
    requires
        token.len() > 0,
        forall|j: int| 0 <= j < token.len() ==> token[j] != '/' && token[j] != '.',
    ensures
        parse_spec(token) == Ok::<SpecifierView, ParseErrorView>((SpecifierView {
            resource: token,
            name: Seq::<char>::empty(),
            group: None,
        })),
{
    lemma_first_occurrence_none(token, '/');
    lemma_first_occurrence_none(token, '.');
}

/// Law: a token of the form `resource.group`, where the resource kind is
/// non-empty and free of separators and the group part is non-empty and
/// free of `/`, parses to that resource kind with exactly that group (the
/// sub-segments after the first `.`, still joined by `.`) and no name.
pub proof fn lemma_parse_resource_and_group(resource: Seq<char>, group: Seq<char>)
    requires
        resource.len() > 0,
        group.len() > 0,
        forall|j: int| 0 <= j < resource.len() ==> resource[j] != '/' && resource[j] != '.',
        forall|j: int| 0 <= j < group.len() ==> group[j] != '/',
    ensures
        parse_spec(resource + seq!['.'] + group) == Ok::<SpecifierView, ParseErrorView>(
            (SpecifierView { resource: resource, name: Seq::<char>::empty(), group: Some(group) }),
        ),
{
    let t = resource + seq!['.'] + group;
    assert(t.len() == resource.len() + 1 + group.len());
    assert forall|j: int| 0 <= j < t.len() implies t[j] != '/' by {
        if j < resource.len() {
            assert(t[j] == resource[j]);
        } else if j == resource.len() {
            assert(t[j] == '.');
        } else {
            assert(t[j] == group[j - resource.len() - 1]);
        }
    }
    lemma_first_occurrence_none(t, '/');
    assert forall|j: int| 0 <= j < resource.len() implies t[j] != '.' by {
        assert(t[j] == resource[j]);
    }
    assert(t[resource.len() as int] == '.');
    lemma_first_occurrence_is(t, '.', resource.len() as int);
    assert(t.subrange(0, resource.len() as int) =~= resource);
    assert(t.subrange(resource.len() + 1 as int, t.len() as int) =~= group);
}

/// Law: a token of the form `X/Y`, where neither side holds a further `/`,
/// parses exactly as its head `X` does, and on success the parsed name is
/// `Y`.
pub proof fn lemma_parse_with_name(head: Seq<char>, name: Seq<char>)
    requires
        forall|j: int| 0 <= j < head.len() ==> head[j] != '/',
        forall|j: int| 0 <= j < name.len() ==> name[j] != '/',
    ensures
        parse_spec(head + seq!['/'] + name) == parse_head(head + seq!['/'] + name, head, name),
        parse_spec(head + seq!['/'] + name) matches Ok(s) ==> s.name == name,
{
    let t = head + seq!['/'] + name;
    assert forall|j: int| 0 <= j < head.len() implies t[j] != '/' by {
        assert(t[j] == head[j]);
    }
    assert(t[head.len() as int] == '/');
    lemma_first_occurrence_is(t, '/', head.len() as int);
    let rest = t.subrange(head.len() + 1 as int, t.len() as int);
    assert(rest =~= name);
    lemma_first_occurrence_none(rest, '/');
    assert(t.subrange(0, head.len() as int) =~= head);
}

/// Law: a token with two `/` separators fails to parse, whatever stands
/// between them.
pub proof fn lemma_parse_too_many_separators(a: Seq<char>, b: Seq<char>, c: Seq<char>)
    requires
        forall|j: int| 0 <= j < a.len() ==> a[j] != '/',
        forall|j: int| 0 <= j < b.len() ==> b[j] != '/',
        forall|j: int| 0 <= j < c.len() ==> c[j] != '/',
    ensures
        parse_spec(a + seq!['/'] + b + seq!['/'] + c) == Err::<SpecifierView, ParseErrorView>(
            (ParseErrorView::TooManyNameSeparators { token: a + seq!['/'] + b + seq!['/'] + c }),
        ),
{
    let t = a + seq!['/'] + b + seq!['/'] + c;
    assert forall|j: int| 0 <= j < a.len() implies t[j] != '/' by {
        assert(t[j] == a[j]);
    }
    assert(t[a.len() as int] == '/');
    lemma_first_occurrence_is(t, '/', a.len() as int);
    let rest = t.subrange(a.len() + 1 as int, t.len() as int);
    assert(t[a.len() + 1 + b.len() as int] == '/');
    assert(rest[b.len() as int] == t[a.len() + 1 + b.len() as int]);
    lemma_first_occurrence(rest, '/');
    match first_occurrence(rest, '/') {
        Some(k) => {},
        None => {
            assert(rest[b.len() as int] != '/');
        },
    }
}

/// Law: a token whose resource kind starts with `.` (an empty resource
/// kind) fails to parse.
pub proof fn lemma_parse_leading_dot_fails(token: Seq<char>)
    requires
        token.len() > 0,
        token[0] == '.',
    ensures
        parse_spec(token) is Err,
{
    lemma_first_occurrence(token, '/');
    match first_occurrence(token, '/') {
        None => {
            lemma_first_occurrence_is(token, '.', 0);
        },
        Some(j) => {
            assert(token[j] == '/');
            let rest = token.subrange(j + 1, token.len() as int);
            lemma_first_occurrence(rest, '/');
            match first_occurrence(rest, '/') {
                Some(k) => {},
                None => {
                    let head = token.subrange(0, j);
                    assert(head[0] == token[0]);
                    lemma_first_occurrence_is(head, '.', 0);
                },
            }
        },
    }
}

/// Parses a specifier token into its resource kind, optional API group and
/// optional name, exactly as `parse_spec` describes.
pub fn parse_resource(token: &str) -> (result: Result<ResourceSpecifier, ParseError>)
    ensures
        match result {
            Ok(s) => parse_spec(token@) == Ok::<SpecifierView, ParseErrorView>(s@),
            Err(e) => parse_spec(token@) == Err::<SpecifierView, ParseErrorView>(e@),
        },
{
    let n: usize = token.unicode_len();
    let slash = find_char(token, '/');
    let (head, name): (&str, String) = match slash {
        Some(j) => {
            let rest = token.substring_char(j + 1, n);
            if find_char(rest, '/').is_some() {
                return Err(ParseError::TooManyNameSeparators { token: token.to_owned() });
            }
            (token.substring_char(0, j), rest.to_owned())
        },
        None => (token, String::new()),
    };
    let m: usize = head.unicode_len();
    match find_char(head, '.') {
        None => {
            if m == 0 {
                Err(ParseError::EmptyResource { token: token.to_owned() })
            } else {
                Ok(ResourceSpecifier { resource: head.to_owned(), name, group: None })
            }
        },
        Some(i) => {
            if i == 0 {
                Err(ParseError::EmptyResource { token: token.to_owned() })
            } else {
                let g = head.substring_char(i + 1, m);
                let group: Option<String> = if g.unicode_len() == 0 {
                    None
                } else {
                    Some(g.to_owned())
                };
                Ok(ResourceSpecifier {
                    resource: head.substring_char(0, i).to_owned(),
                    name,
                    group,
                })
            }
        },
    }
}

} // verus!
