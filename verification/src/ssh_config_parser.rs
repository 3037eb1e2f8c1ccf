//! Parser for the SSH client configuration format.
//!
//! The grammar is a sequence of items separated by spacing: host
//! blocks, comment lines and global key/value options.  A host block
//! starts with the `Host` keyword and runs to the next occurrence of
//! the marker `"Host "` (or the end of input); within it, option lines
//! set the resolved host name, the user, or any other key, with a
//! repeated key keeping its last value.  The whole input must be
//! consumed; an item that parses as none of the three forms is a parse
//! error.
//!
//! The spec functions below state the grammar over character
//! sequences; every parsing function is proved to return exactly what
//! they describe.

use vstd::prelude::*;
use vstd::string::StrSliceExecFns;

use crate::model::Host;
use crate::model::HostView;
use crate::model::OptionsMap;
use crate::model::SshConfig;
use crate::model::SshConfigView;

verus! {

/// Spacing accepted around configuration items: space, tab, carriage
/// return and line feed.
pub open spec fn is_multispace(c: char) -> bool {
    c == ' ' || c == '\t' || c == '\r' || c == '\n'
}

/// Spacing accepted between a key and its value: space and tab only.
pub open spec fn is_line_space(c: char) -> bool {
    c == ' ' || c == '\t'
}

/// The characters that end a token: Unicode white space.
pub open spec fn is_white_space(c: char) -> bool {
    ||| c == '\u{0009}'
    ||| c == '\u{000a}'
    ||| c == '\u{000b}'
    ||| c == '\u{000c}'
    ||| c == '\u{000d}'
    ||| c == ' '
    ||| c == '\u{0085}'
    ||| c == '\u{00a0}'
    ||| c == '\u{1680}'
    ||| c == '\u{2000}'
    ||| c == '\u{2001}'
    ||| c == '\u{2002}'
    ||| c == '\u{2003}'
    ||| c == '\u{2004}'
    ||| c == '\u{2005}'
    ||| c == '\u{2006}'
    ||| c == '\u{2007}'
    ||| c == '\u{2008}'
    ||| c == '\u{2009}'
    ||| c == '\u{200a}'
    ||| c == '\u{2028}'
    ||| c == '\u{2029}'
    ||| c == '\u{202f}'
    ||| c == '\u{205f}'
    ||| c == '\u{3000}'
}

fn multispace_char(c: char) -> (r: bool)
    ensures
        r == is_multispace(c),
{
    c == ' ' || c == '\t' || c == '\r' || c == '\n'
}

fn line_space_char(c: char) -> (r: bool)
    ensures
        r == is_line_space(c),
{
    c == ' ' || c == '\t'
}

fn white_space_char(c: char) -> (r: bool)
    ensures
        r == is_white_space(c),
{
    c == '\u{0009}' || c == '\u{000a}' || c == '\u{000b}' || c == '\u{000c}' || c == '\u{000d}'
        || c == ' ' || c == '\u{0085}' || c == '\u{00a0}' || c == '\u{1680}' || c == '\u{2000}'
        || c == '\u{2001}' || c == '\u{2002}' || c == '\u{2003}' || c == '\u{2004}'
        || c == '\u{2005}' || c == '\u{2006}' || c == '\u{2007}' || c == '\u{2008}'
        || c == '\u{2009}' || c == '\u{200a}' || c == '\u{2028}' || c == '\u{2029}'
        || c == '\u{202f}' || c == '\u{205f}' || c == '\u{3000}'
}

/// End of the run of item spacing starting at `i`, capped at `limit`.
pub open spec fn ms_end(s: Seq<char>, i: int, limit: int) -> int
    decreases limit - i,
{
    if 0 <= i && i < limit && limit <= s.len() && is_multispace(s[i]) {
        ms_end(s, i + 1, limit)
    } else {
        i
    }
}

pub proof fn lemma_ms_end(s: Seq<char>, i: int, limit: int)
    requires
        0 <= i <= limit <= s.len(),
    ensures
        i <= ms_end(s, i, limit) <= limit,
    decreases limit - i,
{
    if i < limit && is_multispace(s[i]) {
        lemma_ms_end(s, i + 1, limit);
    }
}

/// End of the run of key/value spacing starting at `i`.
pub open spec fn ls_end(s: Seq<char>, i: int, limit: int) -> int
    decreases limit - i,
{
    if 0 <= i && i < limit && limit <= s.len() && is_line_space(s[i]) {
        ls_end(s, i + 1, limit)
    } else {
        i
    }
}

pub proof fn lemma_ls_end(s: Seq<char>, i: int, limit: int)
    requires
        0 <= i <= limit <= s.len(),
    ensures
        i <= ls_end(s, i, limit) <= limit,
    decreases limit - i,
{
    if i < limit && is_line_space(s[i]) {
        lemma_ls_end(s, i + 1, limit);
    }
}

/// End of the token starting at `i`: the first white-space character
/// at or after it, capped at `limit`.
pub open spec fn token_end(s: Seq<char>, i: int, limit: int) -> int
    decreases limit - i,
{
    if 0 <= i && i < limit && limit <= s.len() && !is_white_space(s[i]) {
        token_end(s, i + 1, limit)
    } else {
        i
    }
}

pub proof fn lemma_token_end(s: Seq<char>, i: int, limit: int)
    requires
        0 <= i <= limit <= s.len(),
    ensures
        i <= token_end(s, i, limit) <= limit,
    decreases limit - i,
{
    if i < limit && !is_white_space(s[i]) {
        lemma_token_end(s, i + 1, limit);
    }
}

/// End of the line starting at `i`: the first line feed at or after
/// it, capped at `limit`.
pub open spec fn line_end(s: Seq<char>, i: int, limit: int) -> int
    decreases limit - i,
{
    if 0 <= i && i < limit && limit <= s.len() && s[i] != '\n' {
        line_end(s, i + 1, limit)
    } else {
        i
    }
}

pub proof fn lemma_line_end(s: Seq<char>, i: int, limit: int)
    requires
        0 <= i <= limit <= s.len(),
    ensures
        i <= line_end(s, i, limit) <= limit,
    decreases limit - i,
{
    if i < limit && s[i] != '\n' {
        lemma_line_end(s, i + 1, limit);
    }
}

/// `t` occurs at position `i` of `s`, wholly before `limit`.
pub open spec fn has_tag(s: Seq<char>, i: int, t: Seq<char>, limit: int) -> bool {
    &&& 0 <= i
    &&& i + t.len() <= limit
    &&& limit <= s.len()
    &&& s.subrange(i, i + t.len() as int) == t
}

/// First position at or after `i` where the next-host marker
/// `"Host "` occurs.
pub open spec fn find_marker(s: Seq<char>, i: int) -> Option<int>
    decreases s.len() - i,
{
    if i + 5 > s.len() {
        None
    } else if has_tag(s, i, "Host "@, s.len() as int) {
        Some(i)
    } else {
        find_marker(s, i + 1)
    }
}

pub proof fn lemma_find_marker(s: Seq<char>, i: int)
    requires
        0 <= i,
    ensures
        find_marker(s, i) matches Some(j) ==> i <= j && j <= s.len(),
    decreases s.len() - i,
{
    if i + 5 > s.len() {
    } else if has_tag(s, i, "Host "@, s.len() as int) {
    } else {
        lemma_find_marker(s, i + 1);
    }
}

fn scan_ms(s: &str, i: usize, limit: usize) -> (r: usize)
    requires
        i <= limit,
        limit <= s@.len(),
    ensures
        r == ms_end(s@, i as int, limit as int),
        i <= r <= limit,
{
    let mut j = i;
    while j < limit
        invariant
            i <= j <= limit,
            limit <= s@.len(),
            ms_end(s@, i as int, limit as int) == ms_end(s@, j as int, limit as int),
        decreases limit - j,
    {
        let c = s.get_char(j);
        if !multispace_char(c) {
            return j;
        }
        j += 1;
    }
    j
}

fn scan_ls(s: &str, i: usize, limit: usize) -> (r: usize)
    requires
        i <= limit,
        limit <= s@.len(),
    ensures
        r == ls_end(s@, i as int, limit as int),
        i <= r <= limit,
{
    let mut j = i;
    while j < limit
        invariant
            i <= j <= limit,
            limit <= s@.len(),
            ls_end(s@, i as int, limit as int) == ls_end(s@, j as int, limit as int),
        decreases limit - j,
    {
        let c = s.get_char(j);
        if !line_space_char(c) {
            return j;
        }
        j += 1;
    }
    j
}

fn scan_token(s: &str, i: usize, limit: usize) -> (r: usize)
    requires
        i <= limit,
        limit <= s@.len(),
    ensures
        r == token_end(s@, i as int, limit as int),
        i <= r <= limit,
{
    let mut j = i;
    while j < limit
        invariant
            i <= j <= limit,
            limit <= s@.len(),
            token_end(s@, i as int, limit as int) == token_end(s@, j as int, limit as int),
        decreases limit - j,
    {
        let c = s.get_char(j);
        if white_space_char(c) {
            return j;
        }
        j += 1;
    }
    j
}

fn scan_line_end(s: &str, i: usize, limit: usize) -> (r: usize)
    requires
        i <= limit,
        limit <= s@.len(),
    ensures
        r == line_end(s@, i as int, limit as int),
        i <= r <= limit,
{
    let mut j = i;
    while j < limit
        invariant
            i <= j <= limit,
            limit <= s@.len(),
            line_end(s@, i as int, limit as int) == line_end(s@, j as int, limit as int),
        decreases limit - j,
    {
        let c = s.get_char(j);
        if c == '\n' {
            return j;
        }
        j += 1;
    }
    j
}

fn tag_matches(s: &str, i: usize, tag: &str, limit: usize) -> (r: bool)
    requires
        i <= limit,
        limit <= s@.len(),
    ensures
        r == has_tag(s@, i as int, tag@, limit as int),
{
    let t_len = tag.unicode_len();
    if t_len > limit - i {
        return false;
    }
    let mut k: usize = 0;
    while k < t_len
        invariant
            k <= t_len,
            t_len == tag@.len(),
            i + t_len <= limit,
            limit <= s@.len(),
            forall|m: int| 0 <= m < k ==> s@[i + m] == tag@[m],
        decreases t_len - k,
    {
        if s.get_char(i + k) != tag.get_char(k) {
            proof {
                assert(!has_tag(s@, i as int, tag@, limit as int)) by {
                    if has_tag(s@, i as int, tag@, limit as int) {
                        assert(s@.subrange(i as int, i + tag@.len() as int)[k as int]
                            == tag@[k as int]);
                    }
                }
            }
            return false;
        }
        k += 1;
    }
    proof {
        assert(s@.subrange(i as int, i + tag@.len() as int) =~= tag@);
    }
    true
}

/// A comment: a number sign, then everything up to the end of the
/// line, which is not consumed.
pub open spec fn spec_comment(s: Seq<char>, i: int, limit: int) -> Option<int> {
    if 0 <= i && i < limit && limit <= s.len() && s[i] == '#' {
        Some(line_end(s, i + 1, limit))
    } else {
        None
    }
}

pub proof fn lemma_spec_comment(s: Seq<char>, i: int, limit: int)
    requires
        0 <= i <= limit <= s.len(),
    ensures
        spec_comment(s, i, limit) matches Some(e) ==> i < e <= limit,
{
    if i < limit && s[i] == '#' {
        lemma_line_end(s, i + 1, limit);
    }
}

/// One recognized option line.
pub ghost enum SshOptionView {
    /// The `HostName` key: the host's resolved name.
    HostName(Seq<char>),
    /// The `User` key: the user to connect as.
    User(Seq<char>),
    /// Any other key with its value.
    Other(Seq<char>, Seq<char>),
}

/// A keyword option: the keyword, at least one space or tab, then a
/// value token.
pub open spec fn keyword_value(s: Seq<char>, i: int, kw: Seq<char>, limit: int) -> Option<
    (Seq<char>, int),
> {
    if has_tag(s, i, kw, limit) {
        let a = i + kw.len() as int;
        let b = ls_end(s, a, limit);
        if b > a {
            let e = token_end(s, b, limit);
            if e > b {
                Some((s.subrange(b, e), e))
            } else {
                None
            }
        } else {
            None
        }
    } else {
        None
    }
}

pub proof fn lemma_keyword_value(s: Seq<char>, i: int, kw: Seq<char>, limit: int)
    requires
        0 <= i <= limit <= s.len(),
    ensures
        keyword_value(s, i, kw, limit) matches Some((_, e)) ==> i < e <= limit,
{
    if has_tag(s, i, kw, limit) {
        let a = i + kw.len() as int;
        lemma_ls_end(s, a, limit);
        let b = ls_end(s, a, limit);
        if b > a {
            lemma_token_end(s, b, limit);
        }
    }
}

/// The option grammar: the `HostName` keyword form, else the `User`
/// keyword form, else any key token, spacing, and a value token.
pub open spec fn spec_option(s: Seq<char>, i: int, limit: int) -> Option<(SshOptionView, int)> {
    match keyword_value(s, i, "HostName"@, limit) {
        Some((v, e)) => Some((SshOptionView::HostName(v), e)),
        None => match keyword_value(s, i, "User"@, limit) {
            Some((v, e)) => Some((SshOptionView::User(v), e)),
            None => {
                let ke = token_end(s, i, limit);
                if ke > i {
                    let b = ls_end(s, ke, limit);
                    if b > ke {
                        let ve = token_end(s, b, limit);
                        if ve > b {
                            Some((SshOptionView::Other(s.subrange(i, ke), s.subrange(b, ve)), ve))
                        } else {
                            None
                        }
                    } else {
                        None
                    }
                } else {
                    None
                }
            },
        },
    }
}

pub proof fn lemma_spec_option(s: Seq<char>, i: int, limit: int)
    requires
        0 <= i <= limit <= s.len(),
    ensures
        spec_option(s, i, limit) matches Some((_, e)) ==> i < e <= limit,
{
    lemma_keyword_value(s, i, "HostName"@, limit);
    lemma_keyword_value(s, i, "User"@, limit);
    lemma_token_end(s, i, limit);
    let ke = token_end(s, i, limit);
    lemma_ls_end(s, ke, limit);
    let b = ls_end(s, ke, limit);
    if i < ke && ke < b {
        lemma_token_end(s, b, limit);
    }
}

/// One recognized option line in its owned form.
enum SshOption {
    HostName(String),
    User(String),
    Other(String, String),
}

spec fn option_view(o: SshOption) -> SshOptionView {
    match o {
        SshOption::HostName(v) => SshOptionView::HostName(v@),
        SshOption::User(v) => SshOptionView::User(v@),
        SshOption::Other(k, v) => SshOptionView::Other(k@, v@),
    }
}

fn keyword_at(s: &str, i: usize, kw: &str, limit: usize) -> (r: Option<(String, usize)>)
    requires
        i <= limit,
        limit <= s@.len(),
    ensures
        match r {
            Some((v, e)) => keyword_value(s@, i as int, kw@, limit as int) == Some((v@, e as int))
                && i < e <= limit,
            None => keyword_value(s@, i as int, kw@, limit as int) is None,
        },
{
    if !tag_matches(s, i, kw, limit) {
        return None;
    }
    let a = i + kw.unicode_len();
    let b = scan_ls(s, a, limit);
    if b == a {
        return None;
    }
    let e = scan_token(s, b, limit);
    if e == b {
        return None;
    }
    let v = s.substring_char(b, e).to_owned();
    Some((v, e))
}

fn option_at(s: &str, i: usize, limit: usize) -> (r: Option<(SshOption, usize)>)
    requires
        i <= limit,
        limit <= s@.len(),
    ensures
        match r {
            Some((o, e)) => spec_option(s@, i as int, limit as int) == Some(
                (option_view(o), e as int),
            ) && i < e <= limit,
            None => spec_option(s@, i as int, limit as int) is None,
        },
{
    match keyword_at(s, i, "HostName", limit) {
        Some((v, e)) => {
            return Some((SshOption::HostName(v), e));
        },
        None => {},
    }
    match keyword_at(s, i, "User", limit) {
        Some((v, e)) => {
            return Some((SshOption::User(v), e));
        },
        None => {},
    }
    let ke = scan_token(s, i, limit);
    if ke == i {
        return None;
    }
    let b = scan_ls(s, ke, limit);
    if b == ke {
        return None;
    }
    let ve = scan_token(s, b, limit);
    if ve == b {
        return None;
    }
    let key = s.substring_char(i, ke).to_owned();
    let value = s.substring_char(b, ve).to_owned();
    Some((SshOption::Other(key, value), ve))
}

fn find_marker_at(s: &str, i: usize, n: usize) -> (r: Option<usize>)
    requires
        i <= n,
        n == s@.len(),
    ensures
        match r {
            Some(j) => find_marker(s@, i as int) == Some(j as int) && i <= j <= n,
            None => find_marker(s@, i as int) is None,
        },
{
    proof {
        reveal_strlit("Host ");
    }
    let mut j = i;
    while n - j >= 5
        invariant
            i <= j <= n,
            n == s@.len(),
            "Host "@.len() == 5,
            find_marker(s@, i as int) == find_marker(s@, j as int),
        decreases n - j,
    {
        if tag_matches(s, j, "Host ", n) {
            return Some(j);
        }
        j += 1;
    }
    None
}

/// The option lines of one host block, folded left to right onto the
/// accumulated fields; a repeated key keeps its last value.  The fold
/// stops where neither spacing, a comment nor an option can be read;
/// whatever else the block holds is skipped with it.
pub open spec fn host_options(
    s: Seq<char>,
    i: int,
    limit: int,
    host_name: Option<Seq<char>>,
    user: Option<Seq<char>>,
    other: Map<Seq<char>, Seq<char>>,
) -> (Option<Seq<char>>, Option<Seq<char>>, Map<Seq<char>, Seq<char>>)
    decreases limit - i,
    when 0 <= i <= limit <= s.len()
{
    let j = ms_end(s, i, limit);
    if j == i {
        (host_name, user, other)
    } else {
        proof {
            lemma_ms_end(s, i, limit);
        }
        match spec_comment(s, j, limit) {
            Some(e) => {
                proof {
                    lemma_spec_comment(s, j, limit);
                }
                host_options(s, e, limit, host_name, user, other)
            },
            None => match spec_option(s, j, limit) {
                Some((o, e)) => {
                    proof {
                        lemma_spec_option(s, j, limit);
                    }
                    match o {
                        SshOptionView::HostName(v) => host_options(s, e, limit, Some(v), user, other),
                        SshOptionView::User(v) => host_options(s, e, limit, host_name, Some(v), other),
                        SshOptionView::Other(k, v) => host_options(
                            s,
                            e,
                            limit,
                            host_name,
                            user,
                            other.insert(k, v),
                        ),
                    }
                },
                None => (host_name, user, other),
            },
        }
    }
}

/// One host block: the `Host` keyword, spacing, the host's name, then
/// its option lines up to the next `"Host "` marker or the end of
/// input.  The returned position is where the next block starts.
pub open spec fn spec_host(s: Seq<char>, i: int) -> Option<(HostView, int)> {
    let n = s.len() as int;
    if has_tag(s, i, "Host"@, n) {
        let a = i + "Host"@.len() as int;
        let b = ls_end(s, a, n);
        if b > a {
            let e = token_end(s, b, n);
            if e > b {
                let name = s.subrange(b, e);
                let limit = match find_marker(s, e) {
                    Some(j) => j,
                    None => n,
                };
                let folded = host_options(s, e, limit, None, None, Map::empty());
                Some(
                    (
                        HostView {
                            name,
                            host_name: folded.0,
                            user: folded.1,
                            other: folded.2,
                        },
                        limit,
                    ),
                )
            } else {
                None
            }
        } else {
            None
        }
    } else {
        None
    }
}

pub proof fn lemma_spec_host(s: Seq<char>, i: int)
    requires
        0 <= i <= s.len(),
    ensures
        spec_host(s, i) matches Some((_, e)) ==> i < e <= s.len(),
{
    let n = s.len() as int;
    if has_tag(s, i, "Host"@, n) {
        let a = i + "Host"@.len() as int;
        lemma_ls_end(s, a, n);
        let b = ls_end(s, a, n);
        if b > a {
            lemma_token_end(s, b, n);
            let e = token_end(s, b, n);
            if e > b {
                lemma_find_marker(s, e);
            }
        }
    }
}

/// Exec mirror of [`host_options`]; owns and returns the accumulated
/// fields.
fn collect_host_options(
    s: &str,
    i: usize,
    limit: usize,
    host_name: Option<String>,
    user: Option<String>,
    other: OptionsMap,
) -> (r: (Option<String>, Option<String>, OptionsMap))
    requires
        i <= limit,
        limit <= s@.len(),
        other.wf(),
    ensures
        ({
            let folded = host_options(
                s@,
                i as int,
                limit as int,
                host_name.deep_view(),
                user.deep_view(),
                other@,
            );
            &&& r.0.deep_view() == folded.0
            &&& r.1.deep_view() == folded.1
            &&& r.2@ == folded.2
            &&& r.2.wf()
        }),
    decreases limit - i,
{
    let j = scan_ms(s, i, limit);
    if j == i {
        return (host_name, user, other);
    }
    if j < limit {
        let c = s.get_char(j);
        if c == '#' {
            let e = scan_line_end(s, j + 1, limit);
            return collect_host_options(s, e, limit, host_name, user, other);
        }
    }
    match option_at(s, j, limit) {
        Some((SshOption::HostName(v), e)) => collect_host_options(
            s,
            e,
            limit,
            Some(v),
            user,
            other,
        ),
        Some((SshOption::User(v), e)) => collect_host_options(s, e, limit, host_name, Some(v), other),
        Some((SshOption::Other(k, v), e)) => {
            let mut updated = other;
            updated.insert(k, v);
            collect_host_options(s, e, limit, host_name, user, updated)
        },
        None => (host_name, user, other),
    }
}

/// Exec mirror of [`spec_host`]: the host block starting at `i`, with
/// the position where the next block starts.
fn host_at(s: &str, i: usize, n: usize) -> (r: Option<(Host, usize)>)
    requires
        i <= n,
        n == s@.len(),
    ensures
        match r {
            Some((h, e)) => spec_host(s@, i as int) == Some((h@, e as int)) && h.wf() && i < e
                <= n,
            None => spec_host(s@, i as int) is None,
        },
{
    if !tag_matches(s, i, "Host", n) {
        return None;
    }
    let a = i + "Host".unicode_len();
    let b = scan_ls(s, a, n);
    if b == a {
        return None;
    }
    let e = scan_token(s, b, n);
    if e == b {
        return None;
    }
    let name = s.substring_char(b, e).to_owned();
    let limit = match find_marker_at(s, e, n) {
        Some(j) => j,
        None => n,
    };
    let folded = collect_host_options(s, e, limit, None, None, OptionsMap::new());
    let host = Host { name, host_name: folded.0, user: folded.1, other: folded.2 };
    proof {
        assert(host@ =~~= spec_host(s@, i as int).unwrap().0);
    }
    Some((host, limit))
}

/// One top-level configuration item.
pub ghost enum ItemView {
    /// A host block.
    HostItem(HostView),
    /// A comment line; contributes nothing.
    CommentItem,
    /// A global option.
    GlobalItem(SshOptionView),
}

/// The item starting at `i`: a host block, else a comment, else a
/// global option, in that order of preference.
pub open spec fn spec_item(s: Seq<char>, i: int) -> Option<(ItemView, int)> {
    let n = s.len() as int;
    match spec_host(s, i) {
        Some((h, e)) => Some((ItemView::HostItem(h), e)),
        None => match spec_comment(s, i, n) {
            Some(e) => Some((ItemView::CommentItem, e)),
            None => match spec_option(s, i, n) {
                Some((o, e)) => Some((ItemView::GlobalItem(o), e)),
                None => None,
            },
        },
    }
}

pub proof fn lemma_spec_item(s: Seq<char>, i: int)
    requires
        0 <= i <= s.len(),
    ensures
        spec_item(s, i) matches Some((_, e)) ==> i < e <= s.len(),
{
    let n = s.len() as int;
    lemma_spec_host(s, i);
    lemma_spec_comment(s, i, n);
    lemma_spec_option(s, i, n);
}

/// Folds one item into the accumulated hosts and global options; a
/// keyword option lands in the global map under its keyword.
pub open spec fn apply_item(
    item: ItemView,
    hosts: Seq<HostView>,
    globals: Map<Seq<char>, Seq<char>>,
) -> (Seq<HostView>, Map<Seq<char>, Seq<char>>) {
    match item {
        ItemView::HostItem(h) => (hosts.push(h), globals),
        ItemView::CommentItem => (hosts, globals),
        ItemView::GlobalItem(o) => match o {
            SshOptionView::HostName(v) => (hosts, globals.insert("HostName"@, v)),
            SshOptionView::User(v) => (hosts, globals.insert("User"@, v)),
            SshOptionView::Other(k, v) => (hosts, globals.insert(k, v)),
        },
    }
}

/// The items from position `i` on, each followed by spacing; the whole
/// input must be consumed, and a position where no item can be read is
/// a parse error.
pub open spec fn spec_items(
    s: Seq<char>,
    i: int,
    hosts: Seq<HostView>,
    globals: Map<Seq<char>, Seq<char>>,
) -> Option<SshConfigView>
    decreases s.len() - i,
    when 0 <= i <= s.len()
{
    let n = s.len() as int;
    match spec_item(s, i) {
        None => None,
        Some((item, e)) => {
            proof {
                lemma_spec_item(s, i);
                lemma_ms_end(s, e, n);
            }
            let folded = apply_item(item, hosts, globals);
            let e2 = ms_end(s, e, n);
            if e2 == n {
                Some(SshConfigView { global_options: folded.1, hosts: folded.0 })
            } else {
                spec_items(s, e2, folded.0, folded.1)
            }
        },
    }
}

/// The configuration described by `s`: empty input yields the empty
/// configuration; otherwise the items after any leading spacing, which
/// must reach the end of input.
pub open spec fn spec_parse(s: Seq<char>) -> Option<SshConfigView> {
    if s.len() == 0 {
        Some(
            SshConfigView {
                global_options: Map::empty(),
                hosts: Seq::empty(),
            },
        )
    } else {
        spec_items(s, ms_end(s, 0, s.len() as int), Seq::empty(), Map::empty())
    }
}

/// One top-level item in its owned form.
enum ParsedItem {
    HostItem(Host),
    CommentItem,
    GlobalItem(SshOption),
}

spec fn parsed_item_view(item: ParsedItem) -> ItemView {
    match item {
        ParsedItem::HostItem(h) => ItemView::HostItem(h@),
        ParsedItem::CommentItem => ItemView::CommentItem,
        ParsedItem::GlobalItem(o) => ItemView::GlobalItem(option_view(o)),
    }
}

spec fn parsed_item_wf(item: ParsedItem) -> bool {
    match item {
        ParsedItem::HostItem(h) => h.wf(),
        _ => true,
    }
}

fn item_at(s: &str, i: usize, n: usize) -> (r: Option<(ParsedItem, usize)>)
    requires
        i <= n,
        n == s@.len(),
    ensures
        match r {
            Some((item, e)) => spec_item(s@, i as int) == Some((parsed_item_view(item), e as int))
                && parsed_item_wf(item) && i < e <= n,
            None => spec_item(s@, i as int) is None,
        },
{
    match host_at(s, i, n) {
        Some((h, e)) => {
            return Some((ParsedItem::HostItem(h), e));
        },
        None => {},
    }
    if i < n {
        let c = s.get_char(i);
        if c == '#' {
            let e = scan_line_end(s, i + 1, n);
            return Some((ParsedItem::CommentItem, e));
        }
    }
    match option_at(s, i, n) {
        Some((o, e)) => Some((ParsedItem::GlobalItem(o), e)),
        None => None,
    }
}

/// A position where no configuration item could be read.
#[derive(Clone, Copy, Debug, PartialEq, Eq, Structural)]
pub struct ParseError;

/// Exec mirror of [`spec_items`]; owns and returns the accumulators.
fn items_at(s: &str, i: usize, n: usize, hosts: Vec<Host>, globals: OptionsMap) -> (r: Result<
    (Vec<Host>, OptionsMap),
    ParseError,
>)
    requires
        i <= n,
        n == s@.len(),
        globals.wf(),
        forall|k: int| 0 <= k < hosts@.len() ==> (#[trigger] hosts@[k]).wf(),
    ensures
        match r {
            Ok(folded) => {
                &&& spec_items(s@, i as int, hosts.deep_view(), globals@) == Some(
                    SshConfigView {
                        global_options: folded.1@,
                        hosts: folded.0.deep_view(),
                    },
                )
                &&& folded.1.wf()
                &&& forall|k: int|
                    0 <= k < folded.0@.len() ==> (#[trigger] folded.0@[k]).wf()
            },
            Err(_) => spec_items(s@, i as int, hosts.deep_view(), globals@) is None,
        },
    decreases n - i,
{
    let item = match item_at(s, i, n) {
        None => {
            return Err(ParseError);
        },
        Some(found) => found,
    };
    let e = item.1;
    let mut hosts = hosts;
    let mut globals = globals;
    let ghost pre_hosts = hosts.deep_view();
    let ghost pre_globals = globals@;
    match item.0 {
        ParsedItem::HostItem(h) => {
            hosts.push(h);
            proof {
                assert(hosts.deep_view() =~~= apply_item(
                    ItemView::HostItem(h@),
                    pre_hosts,
                    pre_globals,
                ).0);
            }
        },
        ParsedItem::CommentItem => {},
        ParsedItem::GlobalItem(SshOption::HostName(v)) => {
            globals.insert(String::from_str("HostName"), v);
        },
        ParsedItem::GlobalItem(SshOption::User(v)) => {
            globals.insert(String::from_str("User"), v);
        },
        ParsedItem::GlobalItem(SshOption::Other(k, v)) => {
            globals.insert(k, v);
        },
    }
    let e2 = scan_ms(s, e, n);
    if e2 == n {
        Ok((hosts, globals))
    } else {
        items_at(s, e2, n, hosts, globals)
    }
}

/// Parses the text of an SSH client configuration file into its
/// global options and host entries.
pub fn parse(input: &str) -> (r: Result<SshConfig, ParseError>)
    ensures
        match r {
            Ok(c) => spec_parse(input@) == Some(c@) && c.wf(),
            Err(_) => spec_parse(input@) is None,
        },
{
    let n = input.unicode_len();
    if n == 0 {
        let c = SshConfig { global_options: OptionsMap::new(), hosts: Vec::new() };
        proof {
            assert(c@ =~~= SshConfigView {
                global_options: Map::empty(),
                hosts: Seq::empty(),
            });
        }
        return Ok(c);
    }
    let start = scan_ms(input, 0, n);
    let no_hosts: Vec<Host> = Vec::new();
    proof {
        assert(no_hosts.deep_view() =~~= Seq::<HostView>::empty());
    }
    match items_at(input, start, n, no_hosts, OptionsMap::new()) {
        Ok(folded) => {
            let c = SshConfig { global_options: folded.1, hosts: folded.0 };
            Ok(c)
        },
        Err(e) => Err(e),
    }
}

/// Parses one host block at the start of `input`, returning the rest
/// of the input alongside the host.
pub fn parse_host(input: &str) -> (r: Result<(&str, Host), ParseError>)
    ensures
        match r {
            Ok(parsed) => {
                &&& spec_host(input@, 0) matches Some((hv, e)) && parsed.1@ == hv && parsed.0@
                    == input@.subrange(e, input@.len() as int)
                &&& parsed.1.wf()
            },
            Err(_) => spec_host(input@, 0) is None,
        },
{
    let n = input.unicode_len();
    match host_at(input, 0, n) {
        Some((h, e)) => {
            let rest = input.substring_char(e, n);
            Ok((rest, h))
        },
        None => Err(ParseError),
    }
}

} // verus!
