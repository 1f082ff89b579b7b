//! How a deny rule for a network target meets the spellings of a request.

use crate::contracts::EffectClass;
use crate::policy::scan;
use crate::policy::url::{self, SchemeKnowledge};
use crate::policy::{self, DenyConsult};
use crate::text;
use vstd::prelude::*;

verus! {

// ----- plain spellings -------------------------------------------------------

/// A character of a plain host: a letter, a digit, a dot or a hyphen.
pub open spec fn is_host_char(c: char) -> bool {
    ('a' <= c && c <= 'z') || ('A' <= c && c <= 'Z') || ('0' <= c && c <= '9') || c == '.' || c
        == '-'
}

/// A plain host: not empty, and made of letters, digits, dots and hyphens.
pub open spec fn plain_host(h: Seq<char>) -> bool {
    h.len() > 0 && forall|i: int| 0 <= i < h.len() ==> is_host_char(#[trigger] h[i])
}

/// A tidy text: no space, no control character and no backslash.
pub open spec fn tidy(s: Seq<char>) -> bool {
    forall|i: int| 0 <= i < s.len() ==> #[trigger] s[i] > ' ' && s[i] != '\\'
}

/// A plain path: tidy, with no query, no fragment and no escape.
pub open spec fn plain_path(p: Seq<char>) -> bool {
    tidy(p) && forall|i: int|
        0 <= i < p.len() ==> #[trigger] p[i] != '?' && p[i] != '#' && p[i] != '%'
}

/// One of the web schemes.
pub open spec fn web_scheme(s: Seq<char>) -> bool {
    s == "http"@ || s == "https"@
}

/// The spelling of a target with a scheme.
pub open spec fn spelled(scheme: Seq<char>, authority: Seq<char>, path: Seq<char>) -> Seq<char> {
    scheme + "://"@ + (authority + "/"@ + path)
}

/// The spelling of a target without a scheme.
pub open spec fn bare(authority: Seq<char>, path: Seq<char>) -> Seq<char> {
    authority + "/"@ + path
}

// ----- scanning --------------------------------------------------------------

pub proof fn lemma_first_is(s: Seq<char>, marks: Seq<char>, n: int)
    requires
        0 <= n <= s.len(),
        n == s.len() || marks.contains(s[n]),
        forall|i: int| 0 <= i < n ==> !marks.contains(#[trigger] s[i]),
    ensures
        scan::first_of(s, marks) == n,
    decreases n,
{
    if n > 0 {
        assert(!marks.contains(s[0]));
        let t = s.skip(1);
        assert forall|i: int| 0 <= i < n - 1 implies !marks.contains(#[trigger] t[i]) by {
            assert(t[i] == s[i + 1]);
        }
        lemma_first_is(t, marks, n - 1);
    }
}

proof fn lemma_first_bounds(s: Seq<char>, marks: Seq<char>)
    ensures
        0 <= scan::first_of(s, marks) <= s.len(),
        scan::first_of(s, marks) < s.len() ==> marks.contains(s[scan::first_of(s, marks)]),
        forall|i: int| 0 <= i < scan::first_of(s, marks) ==> !marks.contains(#[trigger] s[i]),
    decreases s.len(),
{
    if s.len() > 0 && !marks.contains(s[0]) {
        let t = s.skip(1);
        lemma_first_bounds(t, marks);
        assert forall|i: int| 0 <= i < scan::first_of(s, marks) implies !marks.contains(
            #[trigger] s[i],
        ) by {
            if i > 0 {
                assert(t[i - 1] == s[i]);
            }
        }
    }
}

pub proof fn lemma_last_none(s: Seq<char>, c: char)
    requires
        forall|i: int| 0 <= i < s.len() ==> #[trigger] s[i] != c,
    ensures
        scan::last_at(s, c) == -1,
    decreases s.len(),
{
    if s.len() > 0 {
        assert(s[s.len() - 1] == s.last());
        lemma_last_none(s.drop_last(), c);
    }
}

proof fn lemma_last_is(a: Seq<char>, c: char, b: Seq<char>)
    requires
        forall|i: int| 0 <= i < b.len() ==> #[trigger] b[i] != c,
    ensures
        scan::parted_last(a + seq![c] + b, c) == Some((a, b)),
    decreases b.len(),
{
    let s = a + seq![c] + b;
    lemma_last_at(a, c, b);
    assert(s.take(a.len() as int) =~= a);
    assert(s.skip(a.len() as int + 1) =~= b);
}

proof fn lemma_last_at(a: Seq<char>, c: char, b: Seq<char>)
    requires
        forall|i: int| 0 <= i < b.len() ==> #[trigger] b[i] != c,
    ensures
        scan::last_at(a + seq![c] + b, c) == a.len(),
    decreases b.len(),
{
    let s = a + seq![c] + b;
    if b.len() > 0 {
        assert(s.last() == b[b.len() - 1]);
        assert(s.drop_last() =~= a + seq![c] + b.drop_last());
        lemma_last_at(a, c, b.drop_last());
    }
}

/// A separator splits a text where neither side before it has the mark.
pub proof fn lemma_parted(a: Seq<char>, c: char, b: Seq<char>)
    requires
        forall|i: int| 0 <= i < a.len() ==> #[trigger] a[i] != c,
    ensures
        scan::parted(a + seq![c] + b, c) == Some((a, b)),
{
    let s = a + seq![c] + b;
    let marks = seq![c];
    assert(marks.contains(s[a.len() as int])) by {
        assert(marks[0] == c);
    }
    assert forall|i: int| 0 <= i < a.len() implies !marks.contains(#[trigger] s[i]) by {
        assert(s[i] == a[i]);
    }
    lemma_first_is(s, marks, a.len() as int);
    assert(s.take(a.len() as int) =~= a);
    assert(s.skip(a.len() as int + 1) =~= b);
}

proof fn lemma_without_none(s: Seq<char>, marks: Seq<char>)
    requires
        forall|i: int| 0 <= i < s.len() ==> !marks.contains(#[trigger] s[i]),
    ensures
        scan::without(s, marks) == s,
    decreases s.len(),
{
    if s.len() > 0 {
        assert(s[s.len() - 1] == s.last());
        lemma_without_none(s.drop_last(), marks);
        assert(s.drop_last().push(s.last()) =~= s);
    } else {
        assert(s =~= Seq::empty());
    }
}

pub proof fn lemma_replaced_none(s: Seq<char>, c: char, by: Seq<char>)
    requires
        forall|i: int| 0 <= i < s.len() ==> #[trigger] s[i] != c,
    ensures
        scan::replaced(s, c, by) == s,
    decreases s.len(),
{
    if s.len() > 0 {
        assert(s[s.len() - 1] == s.last());
        lemma_replaced_none(s.drop_last(), c, by);
        assert(s.drop_last().push(s.last()) =~= s);
    } else {
        assert(s =~= Seq::empty());
    }
}

/// A tidy spelling is seen as it is.
#[verifier::spinoff_prover]
#[verifier::rlimit(60)]
pub proof fn law_tidy_spelling_is_kept(s: Seq<char>)
    requires
        tidy(s),
    ensures
        url::preprocessed(s) == s,
{
    reveal_strlit("\t\n\r");
    assert forall|i: int| 0 <= i < s.len() implies !"\t\n\r"@.contains(#[trigger] s[i]) by {
        assert(s[i] > ' ');
    }
    lemma_without_none(s, "\t\n\r"@);
    if s.len() > 0 {
        assert(s[0] > ' ');
        assert(s[s.len() - 1] > ' ');
    }
    assert(scan::low_trimmed_start(s) == s);
    assert(scan::low_trimmed_end(s) == s);
    lemma_replaced_none(s, '\\', "/"@);
}

// ----- the form of a web spelling --------------------------------------------

/// What follows the scheme of a spelling, taken apart.
proof fn lemma_rest(authority: Seq<char>, path: Seq<char>)
    requires
        authority.len() > 0,
        forall|i: int|
            0 <= i < authority.len() ==> #[trigger] authority[i] != '/' && authority[i] != '?'
                && authority[i] != '#',
    ensures
        scan::until(bare(authority, path), "/?#"@) == authority,
        scan::since(bare(authority, path), "/?#"@) == "/"@ + path,
        scan::stripped("/"@ + path, "/"@) == Some(path),
{
    let r = bare(authority, path);
    let n = authority.len() as int;
    reveal_strlit("/?#");
    reveal_strlit("/");
    assert("/?#"@[0] == '/');
    assert(r[n] == '/');
    assert forall|i: int| 0 <= i < n implies !"/?#"@.contains(#[trigger] r[i]) by {
        assert(r[i] == authority[i]);
    }
    lemma_first_is(r, "/?#"@, n);
    assert(r.take(n) =~= authority);
    assert(r.skip(n) =~= "/"@ + path);
    assert(("/"@ + path).take(1) =~= "/"@);
    assert(("/"@ + path).skip(1) =~= path);
}

/// The normal form of a web spelling whose authority is plain enough to find.
proof fn lemma_web_form(
    scheme: Seq<char>,
    authority: Seq<char>,
    path: Seq<char>,
    knowledge: SchemeKnowledge,
)
    requires
        web_scheme(scan::lowered(scheme)),
        authority.len() > 0,
        authority[0] != '\\',
        forall|i: int|
            0 <= i < authority.len() ==> #[trigger] authority[i] != '/' && authority[i] != '?'
                && authority[i] != '#',
    ensures
        url::leading_scheme(spelled(scheme, authority, path)) == Some(
            (scheme, "//"@ + bare(authority, path)),
        ),
        url::carries_scheme(spelled(scheme, authority, path)),
        url::normal_form(spelled(scheme, authority, path), knowledge) == (
        match url::host_and_port(url::without_userinfo(authority)) {
            Some((host, port)) => Some(
                scan::lowered(scheme) + "://"@ + scan::lowered(host) + url::port_form(
                    scan::lowered(scheme),
                    port,
                    knowledge,
                ) + ("/"@ + scan::until(path, "?#"@)),
            ),
            None => None,
        }),
{
    let raw = spelled(scheme, authority, path);
    let low = scan::lowered(scheme);
    let r = bare(authority, path);
    reveal_strlit("http");
    reveal_strlit("https");
    reveal_strlit("file");
    reveal_strlit("://");
    reveal_strlit("//");
    reveal_strlit("/\\");
    reveal_strlit("ws");
    reveal_strlit("wss");
    reveal_strlit("ftp");
    assert("http"@.len() == 4 && "https"@.len() == 5 && "file"@.len() == 4);
    assert("http"@[0] == 'h' && "https"@[0] == 'h' && "file"@[0] == 'f');
    assert(low != "file"@);
    assert forall|i: int| 0 <= i < scheme.len() implies #[trigger] scheme[i] != ':'
        && scan::is_ascii_letter(scheme[i]) by {
        assert(low[i] == scan::lower_char(scheme[i]));
        assert(low =~= "http"@ || low =~= "https"@);
        assert(low[i] == 'h' || low[i] == 't' || low[i] == 'p' || low[i] == 's');
    }
    assert(raw =~= scheme + seq![':'] + ("//"@ + r));
    lemma_parted(scheme, ':', "//"@ + r);
    assert(url::is_scheme(scheme));
    assert(url::file_rest(raw) is None);
    let after = "//"@ + r;
    assert(after.take(2) =~= "//"@);
    assert(text::has_prefix(after, "//"@));
    let t1 = after.skip(1);
    let t2 = t1.skip(1);
    assert(t2 =~= r);
    assert("/\\"@[0] == '/' && "/\\"@[1] == '\\');
    assert("/\\"@.contains(after[0]));
    assert("/\\"@.contains(t1[0]));
    assert(r[0] == authority[0]);
    assert(!"/\\"@.contains(r[0]));
    assert(scan::trimmed_start(r, "/\\"@) == r);
    assert(scan::trimmed_start(t1, "/\\"@) == r);
    assert(scan::trimmed_start(after, "/\\"@) == r);
    lemma_rest(authority, path);
}

/// A plain host is its own host, and no port is given.
pub proof fn lemma_plain_host(h: Seq<char>)
    requires
        plain_host(h),
    ensures
        url::without_userinfo(h) == h,
        url::host_and_port(h) == Some((h, Seq::<char>::empty())),
        h[0] != '\\',
        forall|i: int| 0 <= i < h.len() ==> #[trigger] h[i] != '/' && h[i] != '?' && h[i] != '#',
{
    assert forall|i: int| 0 <= i < h.len() implies #[trigger] h[i] != '@' && h[i] != ':' && h[i]
        != '[' && h[i] != '/' && h[i] != '?' && h[i] != '#' && h[i] != '\\' by {
        assert(is_host_char(h[i]));
    }
    lemma_last_none(h, '@');
    lemma_last_none(h, ':');
    assert(h[0] != '[');
}

/// The form of a web spelling of a plain host.
proof fn lemma_plain_form(
    scheme: Seq<char>,
    host: Seq<char>,
    path: Seq<char>,
    knowledge: SchemeKnowledge,
)
    requires
        web_scheme(scan::lowered(scheme)),
        plain_host(host),
    ensures
        url::carries_scheme(spelled(scheme, host, path)),
        url::normal_form(spelled(scheme, host, path), knowledge) == Some(
            spelled(scan::lowered(scheme), scan::lowered(host), scan::until(path, "?#"@)),
        ),
{
    lemma_plain_host(host);
    lemma_web_form(scheme, host, path, knowledge);
    let low = scan::lowered(scheme);
    let p = scan::until(path, "?#"@);
    assert(low + "://"@ + scan::lowered(host) + Seq::<char>::empty() + ("/"@ + p) =~= spelled(
        low,
        scan::lowered(host),
        p,
    ));
}

proof fn lemma_lower_web(scheme: Seq<char>)
    requires
        web_scheme(scheme),
    ensures
        scan::lowered(scheme) == scheme,
{
    reveal_strlit("http");
    reveal_strlit("https");
    assert forall|i: int| 0 <= i < scheme.len() implies #[trigger] scheme[i] >= 'a' by {
    }
    assert(scan::lowered(scheme) =~= scheme);
}

pub proof fn lemma_lower_host(h: Seq<char>)
    requires
        plain_host(h),
    ensures
        plain_host(scan::lowered(h)),
        scan::lowered(scan::lowered(h)) == scan::lowered(h),
{
    let l = scan::lowered(h);
    assert forall|i: int| 0 <= i < l.len() implies is_host_char(#[trigger] l[i]) && scan::lower_char(
        l[i],
    ) == l[i] by {
        assert(is_host_char(h[i]));
        assert(l[i] == scan::lower_char(h[i]));
    }
    assert(scan::lowered(l) =~= l);
}

/// The key of a normal form is what follows its scheme.
proof fn lemma_key(scheme: Seq<char>, rest: Seq<char>)
    requires
        web_scheme(scheme),
    ensures
        url::key_of(scheme + "://"@ + rest) == rest,
{
    let s = scheme + "://"@ + rest;
    reveal_strlit("http");
    reveal_strlit("https");
    reveal_strlit("://");
    let n = scheme.len() as int;
    assert(s.subrange(n, n + "://"@.len()) =~= "://"@);
    lemma_text_at(s, "://"@, n);
    assert(s.skip(scheme.len() as int + 3) =~= rest);
}

pub proof fn lemma_text_at(s: Seq<char>, p: Seq<char>, n: int)
    requires
        0 <= n,
        n + p.len() <= s.len(),
        p.len() > 0,
        s.subrange(n, n + p.len()) == p,
        forall|i: int| 0 <= i < n ==> #[trigger] s[i] != p[0],
    ensures
        scan::text_at(s, p) == Some(n),
    decreases n,
{
    if n == 0 {
        assert(s.take(p.len() as int) =~= s.subrange(0, p.len() as int));
    } else {
        assert(s[0] != p[0]);
        assert(!text::has_prefix(s, p)) by {
            assert(s.take(p.len() as int)[0] == s[0]);
        }
        let t = s.skip(1);
        assert(t.subrange(n - 1, n - 1 + p.len()) =~= s.subrange(n, n + p.len()));
        assert forall|i: int| 0 <= i < n - 1 implies #[trigger] t[i] != p[0] by {
            assert(t[i] == s[i + 1]);
        }
        lemma_text_at(t, p, n - 1);
    }
}

/// A spelling that opens with a plain host carries no scheme of its own.
proof fn lemma_bare(host: Seq<char>, path: Seq<char>)
    requires
        plain_host(host),
    ensures
        url::leading_scheme(bare(host, path)) is None,
        !url::carries_scheme(bare(host, path)),
        url::introduced(bare(host, path)) is None,
        url::guessed_deny_form(bare(host, path)) == Some(
            spelled("https"@, scan::lowered(host), scan::until(path, "?#"@)),
        ),
        url::guessed_form(bare(host, path)) == Some(
            spelled("https"@, scan::lowered(host), scan::until(path, "?#"@)),
        ),
{
    let e = bare(host, path);
    reveal_strlit("/");
    reveal_strlit("//");
    reveal_strlit("://");
    reveal_strlit("https");
    reveal_strlit("https://");
    let n = scan::first_of(e, seq![':']);
    lemma_first_bounds(e, seq![':']);
    assert(is_host_char(host[0]));
    assert(e[0] == host[0]);
    assert(e[host.len() as int] == '/');
    if n < e.len() {
        assert(seq![':'].contains(e[n]));
        assert(e[n] == ':');
        if n <= host.len() {
            if n < host.len() {
                assert(is_host_char(host[n]));
            }
            assert(false);
        }
        assert(e.take(n)[host.len() as int] == '/');
        assert(!url::is_scheme_char('/'));
        assert(!url::is_scheme(e.take(n)));
    }
    assert(!text::has_prefix(e, "//"@)) by {
        if text::has_prefix(e, "//"@) {
            assert(e.take(2)[0] == '/');
        }
    }
    assert(e.contains('/'));
    assert("https://"@ + e =~= spelled("https"@, host, path));
    lemma_lower_web("https"@);
    lemma_plain_form("https"@, host, path, SchemeKnowledge::Guessed);
}

proof fn lemma_entry(entries: Seq<Seq<char>>, entry: Seq<char>, raw: Seq<char>)
    requires
        entries.contains(entry),
        policy::entry_denies(entry, raw),
    ensures
        policy::raw_denied(entries, raw),
{
    let i = choose|i: int| 0 <= i < entries.len() && entries[i] == entry;
    assert(policy::entry_denies(entries[i], raw));
}

proof fn lemma_tidy_spellings(scheme: Seq<char>, host: Seq<char>, path: Seq<char>)
    requires
        web_scheme(scheme),
        plain_host(host),
        tidy(path),
    ensures
        tidy(bare(host, path)),
        tidy(spelled(scheme, host, path)),
        url::preprocessed(bare(host, path)) == bare(host, path),
        url::preprocessed(spelled(scheme, host, path)) == spelled(scheme, host, path),
{
    reveal_strlit("http");
    reveal_strlit("https");
    reveal_strlit("://");
    reveal_strlit("/");
    let b = bare(host, path);
    assert forall|i: int| 0 <= i < b.len() implies #[trigger] b[i] > ' ' && b[i] != '\\' by {
        if i < host.len() {
            assert(is_host_char(host[i]));
        } else if i > host.len() {
            assert(b[i] == path[i - host.len() - 1]);
        }
    }
    let s = spelled(scheme, host, path);
    assert forall|i: int| 0 <= i < s.len() implies #[trigger] s[i] > ' ' && s[i] != '\\' by {
        if i >= scheme.len() + 3 {
            assert(s[i] == b[i - scheme.len() - 3]);
        }
    }
    law_tidy_spelling_is_kept(b);
    law_tidy_spelling_is_kept(s);
}

// ----- the laws --------------------------------------------------------------

/// A deny enrolled without a scheme covers the target under every web scheme:
/// the entry `host/path` denies `http://host/path` and `https://host/path`,
/// and the bare spelling itself.
#[verifier::spinoff_prover]
#[verifier::rlimit(60)]
pub proof fn law_bare_deny_covers_every_web_scheme(
    entries: Seq<Seq<char>>,
    scheme: Seq<char>,
    host: Seq<char>,
    path: Seq<char>,
)
    requires
        web_scheme(scheme),
        plain_host(host),
        tidy(path),
        entries.contains(bare(host, path)),
    ensures
        policy::raw_denied(entries, spelled(scheme, host, path)),
        policy::raw_denied(entries, bare(host, path)),
        policy::consult_of(entries, spelled(scheme, host, path), EffectClass::Egress)
            == DenyConsult::<Seq<char>>::Denied,
{
    let raw = spelled(scheme, host, path);
    let e = bare(host, path);
    lemma_tidy_spellings(scheme, host, path);
    lemma_bare(host, path);
    lemma_lower_web(scheme);
    lemma_lower_web("https"@);
    lemma_plain_form(scheme, host, path, SchemeKnowledge::Carried);
    let rest = bare(scan::lowered(host), scan::until(path, "?#"@));
    lemma_key(scheme, rest);
    lemma_key("https"@, rest);
    lemma_entry(entries, e, raw);
    lemma_entry(entries, e, e);
}

/// A deny enrolled without a scheme covers every request whose normal form has
/// its authority and path, whatever scheme the request carries.
#[verifier::spinoff_prover]
#[verifier::rlimit(60)]
pub proof fn law_bare_deny_goes_by_authority_and_path(
    entries: Seq<Seq<char>>,
    entry: Seq<char>,
    target: Seq<char>,
    denied: Seq<char>,
    request: Seq<char>,
)
    requires
        entries.contains(entry),
        !url::carries_scheme(url::preprocessed(entry)),
        url::guessed_deny_form(url::preprocessed(entry)) == Some(denied),
        url::normal_form(url::preprocessed(target), SchemeKnowledge::Carried) == Some(request)
            || url::normal_form(url::preprocessed(target), SchemeKnowledge::Guessed) == Some(
            request,
        ),
        url::key_of(request) == url::key_of(denied),
    ensures
        policy::raw_denied(entries, url::preprocessed(target)),
        policy::consult_of(entries, target, EffectClass::Egress) == DenyConsult::<
            Seq<char>,
        >::Denied,
{
    lemma_entry(entries, entry, url::preprocessed(target));
}

// ----- escapes ---------------------------------------------------------------

proof fn lemma_scalar_bytes(c: char)
    requires
        c != '%',
    ensures
        forall|i: int|
            0 <= i < vstd::utf8::encode_scalar(c as u32).len() ==> #[trigger] vstd::utf8::encode_scalar(
                c as u32,
            )[i] != 37,
{
    let v = c as u32;
    assert(v <= 0x7f && v != 37 ==> (v & 0x7F) as u8 != 37) by (bit_vector);
    assert((0xC0 | ((v >> 6) & 0x1F) as u8) != 37 && (0xE0 | ((v >> 12) & 0x0F) as u8) != 37 && (
    0xF0 | ((v >> 18) & 0x7) as u8) != 37 && (0x80 | (v & 0x3F) as u8) != 37 && (0x80 | ((v >> 6)
        & 0x3F) as u8) != 37 && (0x80 | ((v >> 12) & 0x3F) as u8) != 37) by (bit_vector);
}

proof fn lemma_encoded_bytes(s: Seq<char>)
    requires
        forall|i: int| 0 <= i < s.len() ==> #[trigger] s[i] != '%',
    ensures
        forall|i: int|
            0 <= i < vstd::utf8::encode_utf8(s).len() ==> #[trigger] vstd::utf8::encode_utf8(s)[i]
                != 37,
    decreases s.len(),
{
    if s.len() > 0 {
        let t = s.drop_first();
        assert forall|i: int| 0 <= i < t.len() implies #[trigger] t[i] != '%' by {
            assert(t[i] == s[i + 1]);
        }
        lemma_encoded_bytes(t);
        lemma_scalar_bytes(s[0]);
        let a = vstd::utf8::encode_scalar(s[0] as u32);
        let b = vstd::utf8::encode_utf8(t);
        let all = vstd::utf8::encode_utf8(s);
        assert(all == a + b);
        assert forall|i: int| 0 <= i < all.len() implies #[trigger] all[i] != 37 by {
            if i < a.len() {
                assert(all[i] == a[i]);
            } else {
                assert(all[i] == b[i - a.len()]);
            }
        }
    }
}

proof fn lemma_encoded_join(a: Seq<char>, b: Seq<char>)
    ensures
        vstd::utf8::encode_utf8(a + b) == vstd::utf8::encode_utf8(a) + vstd::utf8::encode_utf8(b),
    decreases a.len(),
{
    if a.len() == 0 {
        assert(a + b =~= b);
        assert(vstd::utf8::encode_utf8(a) + vstd::utf8::encode_utf8(b) =~= vstd::utf8::encode_utf8(
            b,
        ));
    } else {
        lemma_encoded_join(a.drop_first(), b);
        assert((a + b).drop_first() =~= a.drop_first() + b);
        assert((a + b)[0] == a[0]);
        assert(vstd::utf8::encode_utf8(a + b) =~= vstd::utf8::encode_utf8(a)
            + vstd::utf8::encode_utf8(b));
    }
}

proof fn lemma_unescaped_plain(a: Seq<u8>, b: Seq<u8>)
    requires
        forall|i: int| 0 <= i < a.len() ==> #[trigger] a[i] != 37,
    ensures
        url::unescaped(a + b) == url::prepend(a, url::unescaped(b)),
    decreases a.len(),
{
    if a.len() == 0 {
        assert(a + b =~= b);
        if url::unescaped(b) is Some {
            assert(a + url::unescaped(b)->0 =~= url::unescaped(b)->0);
        }
    } else {
        let t = a.skip(1);
        assert forall|i: int| 0 <= i < t.len() implies #[trigger] t[i] != 37 by {
            assert(t[i] == a[i + 1]);
        }
        lemma_unescaped_plain(t, b);
        assert((a + b).skip(1) =~= t + b);
        assert((a + b)[0] == a[0]);
        if url::unescaped(b) is Some {
            assert(seq![a[0]] + (t + url::unescaped(b)->0) =~= a + url::unescaped(b)->0);
        }
    }
}

/// A text without a percent sign spells itself.
#[verifier::spinoff_prover]
#[verifier::rlimit(60)]
pub proof fn law_unescaped_text_spells_itself(s: Seq<char>)
    requires
        forall|i: int| 0 <= i < s.len() ==> #[trigger] s[i] != '%',
    ensures
        url::decoded(s) == Some(s),
        url::identity_of(s) == s,
{
    let b = vstd::utf8::encode_utf8(s);
    lemma_encoded_bytes(s);
    lemma_unescaped_plain(b, Seq::empty());
    assert(b + Seq::<u8>::empty() =~= b);
    vstd::utf8::encode_utf8_valid_utf8(s);
    vstd::utf8::encode_utf8_decode_utf8(s);
}

/// An escape spells its character: a percent sign and the two hexadecimal
/// digits of an ASCII character, in either case, decode to that character, and
/// what stands around it decodes as it would alone.
#[verifier::spinoff_prover]
#[verifier::rlimit(60)]
pub proof fn law_escape_spells_its_character(
    a: Seq<char>,
    high: char,
    low: char,
    c: char,
    b: Seq<char>,
)
    requires
        forall|i: int| 0 <= i < a.len() ==> #[trigger] a[i] != '%',
        forall|i: int| 0 <= i < b.len() ==> #[trigger] b[i] != '%',
        scan::digit_value(high) is Some,
        scan::digit_value(low) is Some,
        c as nat == scan::digit_value(high)->0 * 16 + scan::digit_value(low)->0,
        c as nat <= 127,
    ensures
        url::decoded(a + seq!['%', high, low] + b) == Some(a + seq![c] + b),
{
    let e = seq!['%', high, low];
    let whole = a + e + b;
    lemma_encoded_join(a + e, b);
    lemma_encoded_join(a, e);
    lemma_encoded_join(a + seq![c], b);
    lemma_encoded_join(a, seq![c]);
    lemma_encoded_bytes(a);
    lemma_encoded_bytes(b);
    let ea = vstd::utf8::encode_utf8(a);
    let eb = vstd::utf8::encode_utf8(b);
    let h = high as u32;
    let l = low as u32;
    let v = c as u32;
    assert(h <= 127 && l <= 127);
    assert(h <= 127 ==> (h & 0x7F) as u8 == h) by (bit_vector);
    assert(l <= 127 ==> (l & 0x7F) as u8 == l) by (bit_vector);
    assert(v <= 127 ==> (v & 0x7F) as u8 == v) by (bit_vector);
    assert((37u32 & 0x7F) as u8 == 37) by (bit_vector);
    assert('%' as u32 == 37);
    let esc = seq![37u8, h as u8, l as u8];
    assert(vstd::utf8::encode_utf8(e) =~= esc) by {
        reveal_with_fuel(vstd::utf8::encode_utf8, 4);
        assert(e.drop_first() =~= seq![high, low]);
        assert(e.drop_first().drop_first() =~= seq![low]);
        assert(e.drop_first().drop_first().drop_first() =~= Seq::<char>::empty());
    }
    let one = seq![v as u8];
    assert(vstd::utf8::encode_utf8(seq![c]) =~= one) by {
        reveal_with_fuel(vstd::utf8::encode_utf8, 2);
        assert(seq![c].drop_first() =~= Seq::<char>::empty());
    }
    assert(ea + esc + eb =~= ea + (esc + eb));
    lemma_unescaped_plain(ea, esc + eb);
    lemma_unescaped_plain(eb, Seq::empty());
    assert(eb + Seq::<u8>::empty() =~= eb);
    let tail = esc + eb;
    assert(tail.skip(3) =~= eb);
    assert(tail[0] == 37 && tail[1] == h as u8 && tail[2] == l as u8);
    assert(url::hex_digit_value(h as u8) == Some(scan::digit_value(high)->0 as u8));
    assert(url::hex_digit_value(l as u8) == Some(scan::digit_value(low)->0 as u8));
    assert(url::escape_at(tail) == Some(v as u8));
    assert(url::unescaped(tail) == Some(one + eb));
    assert(ea + (one + eb) =~= ea + one + eb);
    let t = a + seq![c] + b;
    assert(url::unescaped(vstd::utf8::encode_utf8(whole)) == Some(vstd::utf8::encode_utf8(t)));
    vstd::utf8::encode_utf8_valid_utf8(t);
    vstd::utf8::encode_utf8_decode_utf8(t);
}

// ----- exactness -------------------------------------------------------------

proof fn lemma_tokens_plain(h: Seq<char>)
    requires
        plain_host(h),
    ensures
        url::tokens_of(h) == seq![url::AuthorityToken::Run(h)],
{
    reveal_strlit("@:");
    assert forall|i: int| 0 <= i < h.len() implies !"@:"@.contains(#[trigger] h[i]) && h[i]
        != '%' by {
        assert(is_host_char(h[i]));
    }
    lemma_first_is(h, "@:"@, h.len() as int);
    law_unescaped_text_spells_itself(h);
}

proof fn lemma_segments(scheme: Seq<char>, host: Seq<char>, path: Seq<char>)
    requires
        web_scheme(scheme),
        plain_host(host),
        forall|i: int| 0 <= i < path.len() ==> #[trigger] path[i] != '?' && path[i] != '#',
    ensures
        url::segments_of(spelled(scheme, host, path)) == Some(
            url::SegmentsView {
                intro: scheme + "://"@,
                authority: seq![url::AuthorityToken::Run(host)],
                tail: url::identity_of("/"@ + path),
            },
        ),
{
    let raw = spelled(scheme, host, path);
    let r = bare(host, path);
    reveal_strlit("http");
    reveal_strlit("https");
    reveal_strlit("//");
    lemma_plain_host(host);
    lemma_lower_web(scheme);
    lemma_web_form(scheme, host, path, SchemeKnowledge::Carried);
    lemma_rest(host, path);
    lemma_tokens_plain(host);
    assert(raw[0] == 'h');
    assert(!text::has_prefix(raw, "//"@)) by {
        if text::has_prefix(raw, "//"@) {
            assert(raw.take(2)[0] == '/');
        }
    }
    let after = "//"@ + r;
    assert(after.take(2) =~= "//"@);
    assert(after.skip(2) =~= r);
}

/// A bare spelling tells its host from its path.
proof fn lemma_bare_apart(h: Seq<char>, p: Seq<char>, g: Seq<char>, q: Seq<char>)
    requires
        plain_host(h),
        plain_host(g),
        bare(h, p) == bare(g, q),
    ensures
        h == g,
        p == q,
{
    reveal_strlit("/");
    let a = bare(h, p);
    let b = bare(g, q);
    lemma_plain_host(h);
    lemma_plain_host(g);
    assert(a[h.len() as int] == '/');
    assert(b[g.len() as int] == '/');
    if h.len() < g.len() {
        assert(b[h.len() as int] == g[h.len() as int]);
        assert(false);
    }
    if g.len() < h.len() {
        assert(a[g.len() as int] == h[g.len() as int]);
        assert(false);
    }
    assert(h =~= a.take(h.len() as int));
    assert(g =~= b.take(g.len() as int));
    assert(p =~= a.skip(h.len() as int + 1));
    assert(q =~= b.skip(g.len() as int + 1));
}

pub proof fn lemma_until_plain(p: Seq<char>)
    requires
        forall|i: int| 0 <= i < p.len() ==> #[trigger] p[i] != '?' && p[i] != '#',
    ensures
        scan::until(p, "?#"@) == p,
{
    reveal_strlit("?#");
    assert forall|i: int| 0 <= i < p.len() implies !"?#"@.contains(#[trigger] p[i]) by {
    }
    lemma_first_is(p, "?#"@, p.len() as int);
    assert(p.take(p.len() as int) =~= p);
}

proof fn lemma_plain_identity(host: Seq<char>, path: Seq<char>)
    requires
        plain_host(host),
        plain_path(path),
    ensures
        url::identity_of(bare(host, path)) == bare(host, path),
        url::identity_of("/"@ + path) == "/"@ + path,
{
    reveal_strlit("/");
    let b = bare(host, path);
    assert forall|i: int| 0 <= i < b.len() implies #[trigger] b[i] != '%' by {
        if i < host.len() {
            assert(is_host_char(host[i]));
        } else if i > host.len() {
            assert(b[i] == path[i - host.len() - 1]);
        }
    }
    law_unescaped_text_spells_itself(b);
    let t = "/"@ + path;
    assert forall|i: int| 0 <= i < t.len() implies #[trigger] t[i] != '%' by {
        if i > 0 {
            assert(t[i] == path[i - 1]);
        }
    }
    law_unescaped_text_spells_itself(t);
}

/// Two bare keys name one target exactly where they are one text.
proof fn lemma_same_bare(h: Seq<char>, p: Seq<char>, g: Seq<char>, q: Seq<char>)
    requires
        plain_host(h),
        plain_host(g),
        plain_path(p),
        plain_path(q),
    ensures
        url::same_target(bare(h, p), bare(g, q)) <==> h == g && p == q,
{
    lemma_bare(h, p);
    lemma_bare(g, q);
    lemma_plain_identity(h, p);
    lemma_plain_identity(g, q);
    if bare(h, p) == bare(g, q) {
        lemma_bare_apart(h, p, g, q);
    }
}

proof fn lemma_same_spelled(
    s: Seq<char>,
    h: Seq<char>,
    p: Seq<char>,
    t: Seq<char>,
    g: Seq<char>,
    q: Seq<char>,
)
    requires
        web_scheme(s),
        web_scheme(t),
        plain_host(h),
        plain_host(g),
        plain_path(p),
        plain_path(q),
    ensures
        url::same_target(spelled(s, h, p), spelled(t, g, q)) <==> s == t && h == g && p == q,
{
    lemma_segments(s, h, p);
    lemma_segments(t, g, q);
    lemma_plain_identity(h, p);
    lemma_plain_identity(g, q);
    reveal_strlit("http");
    reveal_strlit("https");
    reveal_strlit("://");
    reveal_strlit("/");
    if url::same_target(spelled(s, h, p), spelled(t, g, q)) {
        let a = seq![url::AuthorityToken::Run(h)];
        let b = seq![url::AuthorityToken::Run(g)];
        assert(a == b);
        assert(a[0] == b[0]);
        assert((s + "://"@).len() == (t + "://"@).len());
        assert(p =~= ("/"@ + p).skip(1));
        assert(q =~= ("/"@ + q).skip(1));
    }
}

/// A bare spelling and a spelling with a scheme are different texts.
proof fn lemma_bare_is_not_spelled(
    h: Seq<char>,
    p: Seq<char>,
    s: Seq<char>,
    g: Seq<char>,
    q: Seq<char>,
)
    requires
        web_scheme(s),
        plain_host(h),
        plain_host(g),
        plain_path(p),
        plain_path(q),
    ensures
        !url::same_target(bare(h, p), spelled(s, g, q)),
        !url::same_target(spelled(s, g, q), bare(h, p)),
{
    reveal_strlit("http");
    reveal_strlit("https");
    reveal_strlit("://");
    reveal_strlit("/");
    lemma_bare(h, p);
    lemma_plain_identity(h, p);
    lemma_plain_identity(g, q);
    let x = spelled(s, g, q);
    let b = bare(g, q);
    let n = s.len() as int;
    assert forall|i: int| 0 <= i < x.len() implies #[trigger] x[i] != '%' by {
        if i >= n + 3 {
            assert(x[i] == b[i - n - 3]);
            if i - n - 3 < g.len() {
                assert(is_host_char(g[i - n - 3]));
            } else if i - n - 3 > g.len() {
                assert(x[i] == q[i - n - 3 - g.len() - 1]);
            }
        }
    }
    law_unescaped_text_spells_itself(x);
    let y = bare(h, p);
    if x == y {
        assert(x[n] == ':' && x[n + 1] == '/');
        assert(y[h.len() as int] == '/');
        lemma_plain_host(h);
        if h.len() <= n {
            assert(x[h.len() as int] != '/');
            assert(false);
        } else {
            assert(y[n] == h[n]);
            assert(is_host_char(h[n]));
            assert(false);
        }
    }
}

proof fn lemma_bare_has_no_form(host: Seq<char>, path: Seq<char>, k: SchemeKnowledge)
    requires
        plain_host(host),
    ensures
        url::normal_form(bare(host, path), k) is None,
{
    let e = bare(host, path);
    lemma_bare(host, path);
    reveal_strlit("file");
    reveal_strlit("/");
    let n = scan::first_of(e, seq![':']);
    lemma_first_bounds(e, seq![':']);
    if n < e.len() {
        assert(seq![':'].contains(e[n]));
        assert(e[n] == ':');
        if n <= host.len() {
            if n < host.len() {
                assert(is_host_char(host[n]));
            }
            assert(false);
        }
        let low = scan::lowered(e.take(n));
        assert(e.take(n)[host.len() as int] == '/');
        assert(low[host.len() as int] == '/');
        assert(low != "file"@) by {
            if low == "file"@ {
                let k = host.len() as int;
                assert("file"@[k] == '/');
                assert("file"@[0] == 'f' && "file"@[1] == 'i' && "file"@[2] == 'l' && "file"@[3]
                    == 'e');
                assert("file"@.len() == 4);
            }
        }
    }
}

/// On plain spellings the deny set is exact. A bare entry denies exactly the
/// requests for its host, in any case of letters, and its path, under either
/// web scheme or none. An entry with a scheme denies exactly those under its
/// own scheme, and the bare request, which has no scheme to tell it apart.
#[verifier::spinoff_prover]
#[verifier::rlimit(60)]
pub proof fn law_plain_targets_are_denied_exactly(
    s: Seq<char>,
    h: Seq<char>,
    p: Seq<char>,
    t: Seq<char>,
    g: Seq<char>,
    q: Seq<char>,
)
    requires
        web_scheme(s),
        web_scheme(t),
        plain_host(h),
        plain_host(g),
        plain_path(p),
        plain_path(q),
    ensures
        ({
            let one = scan::lowered(h) == scan::lowered(g) && p == q;
            &&& policy::raw_denied(seq![bare(h, p)], spelled(t, g, q)) <==> one
            &&& policy::raw_denied(seq![bare(h, p)], bare(g, q)) <==> one
            &&& policy::raw_denied(seq![spelled(s, h, p)], spelled(t, g, q)) <==> one && s == t
            &&& policy::raw_denied(seq![spelled(s, h, p)], bare(g, q)) <==> one
        }),
{
    let lh = scan::lowered(h);
    let lg = scan::lowered(g);
    lemma_lower_host(h);
    lemma_lower_host(g);
    lemma_lower_web(s);
    lemma_lower_web(t);
    lemma_lower_web("https"@);
    lemma_until_plain(p);
    lemma_until_plain(q);
    lemma_tidy_spellings(s, h, p);
    lemma_tidy_spellings(t, g, q);
    lemma_bare(h, p);
    lemma_bare(g, q);
    lemma_plain_form(s, h, p, SchemeKnowledge::Carried);
    lemma_plain_form(t, g, q, SchemeKnowledge::Carried);
    lemma_plain_form(t, g, q, SchemeKnowledge::Guessed);
    lemma_bare_has_no_form(g, q, SchemeKnowledge::Carried);
    lemma_bare_has_no_form(g, q, SchemeKnowledge::Guessed);
    lemma_key(s, bare(lh, p));
    lemma_key(t, bare(lg, q));
    lemma_key("https"@, bare(lh, p));
    lemma_key("https"@, bare(lg, q));
    lemma_same_bare(h, p, g, q);
    lemma_same_bare(lg, q, lh, p);
    lemma_same_spelled(s, h, p, t, g, q);
    lemma_same_spelled(t, lg, q, s, lh, p);
    lemma_bare_is_not_spelled(h, p, t, g, q);
    lemma_bare_is_not_spelled(g, q, s, h, p);
    let b = seq![bare(h, p)];
    let f = seq![spelled(s, h, p)];
    assert(b[0] == bare(h, p) && f[0] == spelled(s, h, p));
    assert(policy::raw_denied(b, spelled(t, g, q)) == policy::entry_denies(
        bare(h, p),
        spelled(t, g, q),
    ));
    assert(policy::raw_denied(b, bare(g, q)) == policy::entry_denies(bare(h, p), bare(g, q)));
    assert(policy::raw_denied(f, spelled(t, g, q)) == policy::entry_denies(
        spelled(s, h, p),
        spelled(t, g, q),
    ));
    assert(policy::raw_denied(f, bare(g, q)) == policy::entry_denies(spelled(s, h, p), bare(g, q)));
}

/// The deny set works entry by entry: two sets together deny what either of
/// them denies, and the empty set denies nothing.
#[verifier::spinoff_prover]
#[verifier::rlimit(60)]
pub proof fn law_entries_deny_one_by_one(
    a: Seq<Seq<char>>,
    b: Seq<Seq<char>>,
    raw: Seq<char>,
)
    ensures
        policy::raw_denied(a + b, raw) <==> policy::raw_denied(a, raw) || policy::raw_denied(
            b,
            raw,
        ),
        !policy::raw_denied(Seq::empty(), raw),
{
    let c = a + b;
    if policy::raw_denied(c, raw) {
        let i = choose|i: int| 0 <= i < c.len() && policy::entry_denies(#[trigger] c[i], raw);
        if i < a.len() {
            assert(policy::entry_denies(a[i], raw));
        } else {
            assert(policy::entry_denies(b[i - a.len()], raw));
        }
    }
    if policy::raw_denied(a, raw) {
        let i = choose|i: int| 0 <= i < a.len() && policy::entry_denies(#[trigger] a[i], raw);
        assert(c[i] == a[i]);
    }
    if policy::raw_denied(b, raw) {
        let i = choose|i: int| 0 <= i < b.len() && policy::entry_denies(#[trigger] b[i], raw);
        assert(c[i + a.len()] == b[i]);
    }
}

// ----- spellings of one target -----------------------------------------------

/// A port that a spelling may leave out under a scheme: none at all, an empty
/// one, or the default of the scheme.
pub open spec fn default_port_text(scheme: Seq<char>, port: Seq<char>) -> bool {
    ||| port == ""@
    ||| port == ":"@
    ||| scheme == "http"@ && port == ":80"@
    ||| scheme == "https"@ && port == ":443"@
}

/// A port that either web scheme could leave out.
pub open spec fn web_port_text(port: Seq<char>) -> bool {
    port == ""@ || port == ":"@ || port == ":80"@ || port == ":443"@
}

/// A userinfo: empty, or tidy text that ends in `@` and opens no path.
pub open spec fn userinfo(u: Seq<char>) -> bool {
    &&& u.len() > 0 ==> u.last() == '@'
    &&& tidy(u)
    &&& forall|i: int|
        0 <= i < u.len() ==> #[trigger] u[i] != '/' && u[i] != '?' && u[i] != '#'
}

/// What ends a path: nothing, or a query or a fragment.
pub open spec fn query_or_fragment(t: Seq<char>) -> bool {
    tidy(t) && (t.len() > 0 ==> t[0] == '?' || t[0] == '#')
}

proof fn lemma_port_values()
    ensures
        scan::based_number("80"@, 10) == Some(80u64),
        scan::based_number("443"@, 10) == Some(443u64),
        text::all_digits("80"@),
        text::all_digits("443"@),
        "80"@.len() == 2,
        "443"@.len() == 3,
{
    reveal_strlit("80");
    reveal_strlit("443");
    reveal_with_fuel(scan::based_value, 5);
    let a = "80"@;
    let b = "443"@;
    assert(a.drop_last() =~= seq!['8']);
    assert(a.drop_last().drop_last() =~= Seq::<char>::empty());
    assert(b.drop_last() =~= seq!['4', '4']);
    assert(b.drop_last().drop_last() =~= seq!['4']);
    assert(b.drop_last().drop_last().drop_last() =~= Seq::<char>::empty());
    assert(scan::based_value(seq!['8'], 10) == Some(8nat));
    assert(scan::based_value(seq!['4'], 10) == Some(4nat));
    assert(scan::based_value(seq!['4', '4'], 10) == Some(44nat));
    assert(scan::based_value(a, 10) == Some(80nat));
    assert(scan::based_value(b, 10) == Some(443nat));
    assert(text::unsigned_digits(a) =~= a);
    assert(text::unsigned_digits(b) =~= b);
}

/// Host and port of an authority with a userinfo and a web port.
proof fn lemma_authority(u: Seq<char>, host: Seq<char>, port: Seq<char>)
    requires
        userinfo(u),
        plain_host(host),
        web_port_text(port),
    ensures
        ({
            let a = u + host + port;
            &&& url::host_and_port(url::without_userinfo(a)) == Some(
                (
                    host,
                    if port.len() > 0 {
                        port.skip(1)
                    } else {
                        Seq::empty()
                    },
                ),
            )
            &&& a.len() > 0
            &&& a[0] != '\\'
            &&& forall|i: int| 0 <= i < a.len() ==> #[trigger] a[i] != '/' && a[i] != '?' && a[i] != '#'
            &&& tidy(a)
        }),
{
    reveal_strlit("");
    reveal_strlit(":");
    reveal_strlit(":80");
    reveal_strlit(":443");
    let a = u + host + port;
    let hp = host + port;
    lemma_plain_host(host);
    assert forall|i: int| 0 <= i < hp.len() implies #[trigger] hp[i] != '@' && hp[i] != '/' && hp[i]
        != '?' && hp[i] != '#' && hp[i] != '\\' && hp[i] > ' ' by {
        if i < host.len() {
            assert(is_host_char(host[i]));
        } else {
            assert(hp[i] == port[i - host.len()]);
        }
    }
    assert forall|i: int| 0 <= i < a.len() implies #[trigger] a[i] != '/' && a[i] != '?' && a[i] != '#'
        && a[i] != '\\' && a[i] > ' ' by {
        if i < u.len() {
            assert(a[i] == u[i]);
        } else {
            assert(a[i] == hp[i - u.len()]);
        }
    }
    if u.len() == 0 {
        assert(a =~= hp);
        lemma_last_none(hp, '@');
    } else {
        assert(a =~= u.drop_last() + seq!['@'] + hp);
        lemma_last_is(u.drop_last(), '@', hp);
    }
    assert(url::without_userinfo(a) == hp);
    assert(hp[0] == host[0]);
    assert(is_host_char(host[0]));
    if port.len() == 0 {
        assert(hp =~= host);
    } else {
        let d = port.skip(1);
        assert(hp =~= host + seq![':'] + d);
        assert(d.len() == 0 || d =~= "80"@ || d =~= "443"@) by {
            reveal_strlit("80");
            reveal_strlit("443");
        }
        lemma_port_values();
        assert(text::all_digits(d));
        assert forall|i: int| 0 <= i < d.len() implies #[trigger] d[i] != ':' by {
            assert(text::is_digit(d[i]));
        }
        lemma_last_is(host, ':', d);
    }
}

/// The port part of the normal form of a web port.
proof fn lemma_port_folds(scheme: Seq<char>, port: Seq<char>)
    requires
        web_port_text(port),
    ensures
        ({
            let d = if port.len() > 0 {
                port.skip(1)
            } else {
                Seq::empty()
            };
            &&& url::port_form(scheme, d, SchemeKnowledge::Guessed).len() == 0
            &&& default_port_text(scheme, port) ==> url::port_form(
                scheme,
                d,
                SchemeKnowledge::Carried,
            ).len() == 0
        }),
{
    reveal_strlit("");
    reveal_strlit(":");
    reveal_strlit(":80");
    reveal_strlit(":443");
    lemma_port_values();
    let d = if port.len() > 0 {
        port.skip(1)
    } else {
        Seq::empty()
    };
    assert(":80"@.skip(1) =~= "80"@) by {
        reveal_strlit("80");
    }
    assert(":443"@.skip(1) =~= "443"@) by {
        reveal_strlit("443");
    }
    assert(":80"@.len() == 3 && ":443"@.len() == 4 && ":"@.len() == 1);
}

proof fn lemma_until_query(path: Seq<char>, tail: Seq<char>)
    requires
        plain_path(path),
        query_or_fragment(tail),
    ensures
        scan::until(path + tail, "?#"@) == path,
{
    reveal_strlit("?#");
    let s = path + tail;
    let n = path.len() as int;
    assert("?#"@[0] == '?' && "?#"@[1] == '#');
    assert forall|i: int| 0 <= i < n implies !"?#"@.contains(#[trigger] s[i]) by {
        assert(s[i] == path[i]);
    }
    if tail.len() > 0 {
        assert(s[n] == tail[0]);
    }
    lemma_first_is(s, "?#"@, n);
    assert(s.take(n) =~= path);
}

proof fn lemma_tidy_join(a: Seq<char>, b: Seq<char>)
    requires
        tidy(a),
        tidy(b),
    ensures
        tidy(a + b),
{
    let s = a + b;
    assert forall|i: int| 0 <= i < s.len() implies #[trigger] s[i] > ' ' && s[i] != '\\' by {
        if i < a.len() {
            assert(s[i] == a[i]);
        } else {
            assert(s[i] == b[i - a.len()]);
        }
    }
}

proof fn lemma_decorated_tidy(
    scheme: Seq<char>,
    path: Seq<char>,
    loud: Seq<char>,
    user: Seq<char>,
    shouted: Seq<char>,
    port: Seq<char>,
    tail: Seq<char>,
)
    requires
        web_scheme(scheme),
        plain_path(path),
        scan::lowered(loud) == scheme,
        userinfo(user),
        plain_host(shouted),
        default_port_text(scheme, port),
        query_or_fragment(tail),
    ensures
        tidy(spelled(loud, user + shouted + port, path + tail)),
{
    let authority = user + shouted + port;
    lemma_authority(user, shouted, port);
    reveal_strlit("http");
    reveal_strlit("https");
    reveal_strlit("://");
    reveal_strlit("/");
    assert forall|i: int| 0 <= i < loud.len() implies #[trigger] loud[i] > ' ' && loud[i]
        != '\\' by {
        assert(scan::lowered(loud)[i] == scan::lower_char(loud[i]));
        assert(scheme.len() == loud.len());
        assert(i == 0 || i == 1 || i == 2 || i == 3 || i == 4);
        assert(scheme[i] == 'h' || scheme[i] == 't' || scheme[i] == 'p' || scheme[i] == 's');
    }
    assert(tidy("://"@));
    assert(tidy("/"@));
    lemma_tidy_join(path, tail);
    lemma_tidy_join(authority, "/"@);
    lemma_tidy_join(authority + "/"@, path + tail);
    lemma_tidy_join(loud, "://"@);
    lemma_tidy_join(loud + "://"@, authority + "/"@ + (path + tail));
}

/// One target, one identity: the case of the scheme and of the host, a
/// userinfo, the default port of the scheme, a query and a fragment do not
/// split a deny. Each such spelling of a target is denied by the entry that
/// spells it plainly, with the scheme or without.
#[verifier::spinoff_prover]
#[verifier::rlimit(60)]
pub proof fn law_decorated_spelling_is_denied(
    entries: Seq<Seq<char>>,
    scheme: Seq<char>,
    host: Seq<char>,
    path: Seq<char>,
    loud: Seq<char>,
    user: Seq<char>,
    shouted: Seq<char>,
    port: Seq<char>,
    tail: Seq<char>,
)
    requires
        web_scheme(scheme),
        plain_host(host),
        plain_path(path),
        scan::lowered(loud) == scheme,
        userinfo(user),
        plain_host(shouted),
        scan::lowered(shouted) == scan::lowered(host),
        default_port_text(scheme, port),
        query_or_fragment(tail),
        entries.contains(spelled(scheme, host, path)) || entries.contains(bare(host, path)),
    ensures
        policy::raw_denied(entries, spelled(loud, user + shouted + port, path + tail)),
        policy::consult_of(
            entries,
            spelled(loud, user + shouted + port, path + tail),
            EffectClass::Egress,
        ) == DenyConsult::<Seq<char>>::Denied,
{
    let authority = user + shouted + port;
    let raw = spelled(loud, authority, path + tail);
    let rest = bare(scan::lowered(host), path);
    lemma_authority(user, shouted, port);
    lemma_port_folds(scheme, port);
    lemma_web_form(loud, authority, path + tail, SchemeKnowledge::Carried);
    lemma_until_query(path, tail);
    lemma_until_plain(path);
    lemma_lower_web(scheme);
    lemma_lower_web("https"@);
    lemma_tidy_spellings(scheme, host, path);
    lemma_plain_form(scheme, host, path, SchemeKnowledge::Carried);
    lemma_bare(host, path);
    lemma_key(scheme, rest);
    lemma_key("https"@, rest);
    assert(scheme + "://"@ + scan::lowered(shouted) + Seq::<char>::empty() + ("/"@ + path)
        =~= spelled(scheme, scan::lowered(host), path));
    let d = if port.len() > 0 {
        port.skip(1)
    } else {
        Seq::empty()
    };
    assert(url::port_form(scheme, d, SchemeKnowledge::Carried) =~= Seq::<char>::empty());
    assert(url::normal_form(raw, SchemeKnowledge::Carried) == Some(
        spelled(scheme, scan::lowered(host), path),
    ));
    lemma_decorated_tidy(scheme, path, loud, user, shouted, port, tail);
    law_tidy_spelling_is_kept(raw);
    if entries.contains(spelled(scheme, host, path)) {
        lemma_entry(entries, spelled(scheme, host, path), raw);
    } else {
        lemma_entry(entries, bare(host, path), raw);
    }
}

/// A scheme under which a backslash reads as a slash has no dot.
proof fn lemma_dotted_is_not_special(host: Seq<char>)
    requires
        host.contains('.'),
    ensures
        !url::special_scheme(host),
{
    reveal_strlit("http");
    reveal_strlit("https");
    reveal_strlit("ws");
    reveal_strlit("wss");
    reveal_strlit("ftp");
    reveal_strlit("file");
    let k = choose|k: int| 0 <= k < host.len() && host[k] == '.';
    let low = scan::lowered(host);
    assert(low[k] == '.');
    assert forall|w: Seq<char>| #[trigger] w.contains('.') implies w != "http"@ && w != "https"@ && w
        != "ws"@ && w != "wss"@ && w != "ftp"@ && w != "file"@ by {
        let n = choose|n: int| 0 <= n < w.len() && w[n] == '.';
        assert(w[n] == '.');
    }
    assert(low.contains('.'));
}

/// The form of a web spelling with a web port, once the port is folded.
proof fn lemma_ported_form(scheme: Seq<char>, host: Seq<char>, port: Seq<char>, path: Seq<char>)
    requires
        web_scheme(scheme),
        plain_host(host),
        plain_path(path),
        web_port_text(port),
    ensures
        url::normal_form(spelled(scheme, host + port, path), SchemeKnowledge::Guessed) == Some(
            spelled(scheme, scan::lowered(host), path),
        ),
{
    let none = Seq::<char>::empty();
    assert(none + host + port =~= host + port);
    lemma_authority(none, host, port);
    lemma_port_folds(scheme, port);
    lemma_until_plain(path);
    lemma_lower_web(scheme);
    lemma_web_form(scheme, host + port, path, SchemeKnowledge::Guessed);
    let d = if port.len() > 0 {
        port.skip(1)
    } else {
        Seq::empty()
    };
    assert(url::port_form(scheme, d, SchemeKnowledge::Guessed) =~= none);
    assert(scheme + "://"@ + scan::lowered(host) + none + ("/"@ + path) =~= spelled(
        scheme,
        scan::lowered(host),
        path,
    ));
}

proof fn lemma_ported_entry_is_bare(host: Seq<char>, port: Seq<char>, path: Seq<char>)
    requires
        plain_host(host),
        host.contains('.'),
        port == ":80"@ || port == ":443"@,
    ensures
        !url::carries_scheme(bare(host + port, path)),
{
    reveal_strlit(":80");
    reveal_strlit(":443");
    reveal_strlit("//");
    let e = bare(host + port, path);
    let after = port.skip(1) + "/"@ + path;
    assert(e =~= host + seq![':'] + after);
    assert forall|i: int| 0 <= i < host.len() implies #[trigger] host[i] != ':' by {
        assert(is_host_char(host[i]));
    }
    lemma_parted(host, ':', after);
    lemma_dotted_is_not_special(host);
    if text::has_prefix(after, "//"@) {
        assert(after.take(2)[0] == '/');
        assert(after[0] == port[1]);
    }
}

proof fn lemma_ported_entry(host: Seq<char>, port: Seq<char>, path: Seq<char>)
    requires
        plain_host(host),
        host.contains('.'),
        plain_path(path),
        port == ""@ || port == ":80"@ || port == ":443"@,
    ensures
        url::preprocessed(bare(host + port, path)) == bare(host + port, path),
        !url::carries_scheme(bare(host + port, path)),
        url::guessed_deny_form(bare(host + port, path)) == Some(
            spelled("https"@, scan::lowered(host), path),
        ),
{
    reveal_strlit("");
    reveal_strlit("/");
    reveal_strlit("//");
    reveal_strlit("://");
    reveal_strlit("https");
    reveal_strlit("https://");
    let e = bare(host + port, path);
    let none = Seq::<char>::empty();
    assert(none + host + port =~= host + port);
    lemma_authority(none, host, port);
    let m = (host + port).len() as int;
    assert forall|i: int| 0 <= i < e.len() implies #[trigger] e[i] > ' ' && e[i] != '\\' by {
        if i < m {
            assert(e[i] == (host + port)[i]);
        } else if i > m {
            assert(e[i] == path[i - m - 1]);
        }
    }
    law_tidy_spelling_is_kept(e);
    if port.len() == 0 {
        assert(host + port =~= host);
        lemma_bare(host, path);
    } else {
        lemma_ported_entry_is_bare(host, port, path);
    }
    lemma_ported_form("https"@, host, port, path);
    assert("https://"@ + e =~= spelled("https"@, host + port, path));
    assert(e[0] == host[0]);
    assert(is_host_char(host[0]));
    assert(!text::has_prefix(e, "//"@)) by {
        if text::has_prefix(e, "//"@) {
            assert(e.take(2)[0] == '/');
        }
    }
    assert(e[m] == '/');
    assert(e.contains('/'));
}

/// A port on either side that some web scheme leaves out does not keep a bare
/// deny from its target: the entry covers the whole class of such ports under
/// both schemes.
#[verifier::spinoff_prover]
#[verifier::rlimit(60)]
pub proof fn law_bare_deny_covers_the_web_ports(
    entries: Seq<Seq<char>>,
    scheme: Seq<char>,
    host: Seq<char>,
    path: Seq<char>,
    enrolled: Seq<char>,
    port: Seq<char>,
)
    requires
        web_scheme(scheme),
        plain_host(host),
        host.contains('.'),
        plain_path(path),
        enrolled == ""@ || enrolled == ":80"@ || enrolled == ":443"@,
        web_port_text(port),
        entries.contains(bare(host + enrolled, path)),
    ensures
        policy::raw_denied(entries, spelled(scheme, host + port, path)),
{
    let rest = bare(scan::lowered(host), path);
    lemma_ported_entry(host, enrolled, path);
    lemma_ported_form(scheme, host, port, path);
    lemma_key(scheme, rest);
    lemma_key("https"@, rest);
    lemma_entry(entries, bare(host + enrolled, path), spelled(scheme, host + port, path));
}

// ----- escapes in a request --------------------------------------------------

/// A plain text in front of an escaped one stays.
proof fn lemma_decoded_behind(a: Seq<char>, b: Seq<char>, t: Seq<char>)
    requires
        forall|i: int| 0 <= i < a.len() ==> #[trigger] a[i] != '%',
        url::decoded(b) == Some(t),
    ensures
        url::decoded(a + b) == Some(a + t),
{
    let ea = vstd::utf8::encode_utf8(a);
    let eb = vstd::utf8::encode_utf8(b);
    lemma_encoded_join(a, b);
    lemma_encoded_join(a, t);
    lemma_encoded_bytes(a);
    lemma_unescaped_plain(ea, eb);
    let x = url::unescaped(eb)->0;
    vstd::utf8::decode_utf8_encode_utf8(x);
    vstd::utf8::encode_utf8_valid_utf8(a + t);
    vstd::utf8::encode_utf8_decode_utf8(a + t);
}

/// An escaped spelling of a path does not get around a deny: a request whose
/// path decodes to the enrolled one is denied, by the entry with its scheme
/// and by the bare one.
#[verifier::spinoff_prover]
#[verifier::rlimit(60)]
pub proof fn law_escaped_path_is_denied(
    entries: Seq<Seq<char>>,
    scheme: Seq<char>,
    host: Seq<char>,
    path: Seq<char>,
    escaped: Seq<char>,
)
    requires
        web_scheme(scheme),
        plain_host(host),
        plain_path(path),
        tidy(escaped),
        forall|i: int| 0 <= i < escaped.len() ==> #[trigger] escaped[i] != '?' && escaped[i] != '#',
        url::decoded(escaped) == Some(path),
        entries.contains(spelled(scheme, host, path)) || entries.contains(bare(host, path)),
    ensures
        policy::raw_denied(entries, spelled(scheme, host, escaped)),
        policy::consult_of(entries, spelled(scheme, host, escaped), EffectClass::Egress)
            == DenyConsult::<Seq<char>>::Denied,
{
    let raw = spelled(scheme, host, escaped);
    let low = scan::lowered(host);
    lemma_lower_host(host);
    lemma_lower_web(scheme);
    lemma_lower_web("https"@);
    lemma_until_plain(path);
    lemma_until_plain(escaped);
    lemma_tidy_spellings(scheme, host, path);
    lemma_tidy_spellings(scheme, host, escaped);
    lemma_plain_form(scheme, host, path, SchemeKnowledge::Carried);
    lemma_plain_form(scheme, host, escaped, SchemeKnowledge::Carried);
    lemma_segments(scheme, low, path);
    lemma_segments(scheme, low, escaped);
    lemma_plain_identity(low, path);
    reveal_strlit("/");
    lemma_decoded_behind("/"@, escaped, path);
    assert(url::same_target(spelled(scheme, low, escaped), spelled(scheme, low, path)));
    lemma_bare(host, path);
    lemma_bare(low, path);
    lemma_bare(low, escaped);
    lemma_key(scheme, bare(low, escaped));
    lemma_key("https"@, bare(low, path));
    let front = low + "/"@;
    assert forall|i: int| 0 <= i < front.len() implies #[trigger] front[i] != '%' by {
        if i < low.len() {
            assert(is_host_char(low[i]));
        }
    }
    lemma_decoded_behind(front, escaped, path);
    assert(url::same_target(bare(low, escaped), bare(low, path)));
    if entries.contains(spelled(scheme, host, path)) {
        lemma_entry(entries, spelled(scheme, host, path), raw);
    } else {
        lemma_entry(entries, bare(host, path), raw);
    }
}

// ----- what the file system has to say ---------------------------------------

/// A plain web target has no path on this machine: where no entry denies it,
/// no rule for paths is asked.
#[verifier::spinoff_prover]
#[verifier::rlimit(60)]
pub proof fn law_web_target_is_no_path(
    entries: Seq<Seq<char>>,
    scheme: Seq<char>,
    host: Seq<char>,
    path: Seq<char>,
)
    requires
        web_scheme(scheme),
        plain_host(host),
        plain_path(path),
        !policy::raw_denied(entries, spelled(scheme, host, path)),
    ensures
        policy::consult_of(entries, spelled(scheme, host, path), EffectClass::Egress)
            == DenyConsult::<Seq<char>>::Clear,
{
    let raw = spelled(scheme, host, path);
    let b = bare(host, path);
    let n = scheme.len() as int;
    reveal_strlit("http");
    reveal_strlit("https");
    reveal_strlit("file");
    reveal_strlit("://");
    reveal_strlit("/");
    reveal_strlit("//");
    lemma_tidy_spellings(scheme, host, path);
    lemma_lower_web(scheme);
    assert(raw =~= scheme + seq![':'] + ("//"@ + b));
    lemma_parted(scheme, ':', "//"@ + b);
    assert("http"@.len() == 4 && "https"@.len() == 5 && "file"@.len() == 4);
    assert("http"@[0] == 'h' && "file"@[0] == 'f');
    assert(url::file_rest(raw) is None);
    assert forall|i: int| 0 <= i < raw.len() implies #[trigger] raw[i] != '%' by {
        if i >= n + 3 {
            assert(raw[i] == b[i - n - 3]);
            if i - n - 3 < host.len() {
                assert(is_host_char(host[i - n - 3]));
            } else if i - n - 3 > host.len() {
                assert(raw[i] == path[i - n - 3 - host.len() - 1]);
            }
        }
    }
    law_unescaped_text_spells_itself(raw);
    assert(raw[0] == 'h');
}

/// An egress that spells a path is matched as that path: an absolute path, as
/// it is or behind `file:` or `file://`, has to be resolved unless an entry
/// denies it outright.
#[verifier::spinoff_prover]
#[verifier::rlimit(60)]
pub proof fn law_spelled_path_is_resolved(entries: Seq<Seq<char>>, path: Seq<char>)
    requires
        plain_path(path),
        path.len() > 1,
        path[0] == '/',
        path[1] != '/',
    ensures
        !policy::raw_denied(entries, path) ==> policy::consult_of(
            entries,
            path,
            EffectClass::Egress,
        ) == DenyConsult::Resolve(path),
        !policy::raw_denied(entries, "file://"@ + path) ==> policy::consult_of(
            entries,
            "file://"@ + path,
            EffectClass::Egress,
        ) == DenyConsult::Resolve(path),
        !policy::raw_denied(entries, "file:"@ + path) ==> policy::consult_of(
            entries,
            "file:"@ + path,
            EffectClass::Egress,
        ) == DenyConsult::Resolve(path),
{
    reveal_strlit("file");
    reveal_strlit("file:");
    reveal_strlit("file://");
    reveal_strlit("//");
    reveal_strlit("/");
    reveal_strlit("?#");
    law_tidy_spelling_is_kept(path);
    law_unescaped_text_spells_itself(path);
    assert(url::file_rest(path) is None) by {
        let n = scan::first_of(path, seq![':']);
        lemma_first_bounds(path, seq![':']);
        if n < path.len() {
            assert(seq![':'].contains(path[n]));
            let low = scan::lowered(path.take(n));
            assert(n > 0);
            assert(low[0] == '/');
            assert("file"@[0] == 'f');
        }
    }
    let one = "file:"@ + path;
    let two = "file://"@ + path;
    assert forall|i: int| 0 <= i < one.len() implies #[trigger] one[i] > ' ' && one[i] != '\\' by {
        if i >= 5 {
            assert(one[i] == path[i - 5]);
        }
    }
    assert forall|i: int| 0 <= i < two.len() implies #[trigger] two[i] > ' ' && two[i] != '\\' by {
        if i >= 7 {
            assert(two[i] == path[i - 7]);
        }
    }
    law_tidy_spelling_is_kept(one);
    law_tidy_spelling_is_kept(two);
    assert(scan::lowered("file"@) =~= "file"@);
    assert(one =~= "file"@ + seq![':'] + path);
    lemma_parted("file"@, ':', path);
    lemma_until_plain(path);
    assert(!text::has_prefix(path, "//"@)) by {
        if text::has_prefix(path, "//"@) {
            assert(path.take(2)[1] == '/');
        }
    }
    let after = "//"@ + path;
    assert(two =~= "file"@ + seq![':'] + after);
    lemma_parted("file"@, ':', after);
    assert forall|i: int| 0 <= i < after.len() implies #[trigger] after[i] != '?' && after[i]
        != '#' by {
        if i >= 2 {
            assert(after[i] == path[i - 2]);
        }
    }
    lemma_until_plain(after);
    assert(after.take(2) =~= "//"@);
    assert(after.skip(2) =~= path);
    assert("/"@[0] == '/');
    lemma_first_is(path, "/"@, 0);
    assert(path.skip(0) =~= path);
}

// ----- preprocessing ---------------------------------------------------------

proof fn lemma_without_join(a: Seq<char>, b: Seq<char>, marks: Seq<char>)
    ensures
        scan::without(a + b, marks) == scan::without(a, marks) + scan::without(b, marks),
    decreases b.len(),
{
    if b.len() == 0 {
        assert(a + b =~= a);
        assert(scan::without(a, marks) + scan::without(b, marks) =~= scan::without(a, marks));
    } else {
        lemma_without_join(a, b.drop_last(), marks);
        assert((a + b).drop_last() =~= a + b.drop_last());
        assert((a + b).last() == b.last());
        assert(scan::without(a + b, marks) =~= scan::without(a, marks) + scan::without(b, marks));
    }
}

/// A tab or a line break anywhere in a spelling changes nothing.
#[verifier::spinoff_prover]
#[verifier::rlimit(60)]
pub proof fn law_breaks_in_a_spelling_do_not_count(a: Seq<char>, c: char, b: Seq<char>)
    requires
        c == '\t' || c == '\n' || c == '\r',
    ensures
        url::preprocessed(a + seq![c] + b) == url::preprocessed(a + b),
{
    reveal_strlit("\t\n\r");
    let m = "\t\n\r"@;
    assert(m[0] == '\t' && m[1] == '\n' && m[2] == '\r');
    let one = seq![c];
    lemma_without_join(a + one, b, m);
    lemma_without_join(a, one, m);
    lemma_without_join(a, b, m);
    assert(one.last() == c && one.drop_last() =~= Seq::<char>::empty());
    assert(scan::without(one, m) =~= Seq::<char>::empty()) by {
        reveal_with_fuel(scan::without, 2);
    }
    assert(scan::without(a + one, m) =~= scan::without(a, m));
}

proof fn lemma_trim_end_push(s: Seq<char>, c: char)
    requires
        c <= ' ',
    ensures
        scan::low_trimmed_end(scan::low_trimmed_start(s.push(c))) == scan::low_trimmed_end(
            scan::low_trimmed_start(s),
        ),
    decreases s.len(),
{
    if s.len() == 0 {
        assert(s.push(c).skip(1) =~= s);
    } else if scan::is_low(s[0]) {
        assert(s.push(c).skip(1) =~= s.skip(1).push(c));
        assert(s.push(c)[0] == s[0]);
        lemma_trim_end_push(s.skip(1), c);
    } else {
        assert(s.push(c)[0] == s[0]);
        assert(s.push(c).drop_last() =~= s);
        assert(s.push(c).last() == c);
    }
}

/// A space or a control character at either end of a spelling changes nothing.
#[verifier::spinoff_prover]
#[verifier::rlimit(60)]
pub proof fn law_spaces_around_a_spelling_do_not_count(s: Seq<char>, c: char)
    requires
        c <= ' ',
    ensures
        url::preprocessed(seq![c] + s) == url::preprocessed(s),
        url::preprocessed(s.push(c)) == url::preprocessed(s),
{
    reveal_strlit("\t\n\r");
    let m = "\t\n\r"@;
    let one = seq![c];
    let kept = scan::without(s, m);
    lemma_without_join(one, s, m);
    assert(one.last() == c && one.drop_last() =~= Seq::<char>::empty());
    assert(scan::without(one, m) =~= (if m.contains(c) {
        Seq::<char>::empty()
    } else {
        one
    })) by {
        reveal_with_fuel(scan::without, 2);
    }
    if m.contains(c) {
        assert(scan::without(one + s, m) =~= kept);
    } else {
        assert((one + kept).skip(1) =~= kept);
        assert((one + kept)[0] == c);
    }
    assert(s.push(c).drop_last() =~= s);
    lemma_trim_end_push(kept, c);
}

} // verus!
