//! Egress targets: when two spellings name one target.

use crate::digest::bytes_of;
use crate::policy::address::{self, loopback_v6, v4_number};
use crate::policy::scan::{
    self, ascii_letter, digits_only, lower, parse_based, remove_all, replace_all, since_first,
    split_by, split_last, split_once, strip_prefix, trim_low, trim_start, until_first,
};
use crate::text::{
    self, chars_of, contains_char, decimal_text, lossy_text, owned, same, starts_with,
    starts_with_char, text2, text3, text5, text_from_bytes, text_of,
};
use vstd::prelude::*;

verus! {

/// The value of one hexadecimal digit.
pub open spec fn hex_digit_value(digit: u8) -> Option<u8> {
    if 48 <= digit <= 57 {
        Some((digit - 48) as u8)
    } else if 97 <= digit <= 102 {
        Some((digit - 87) as u8)
    } else if 65 <= digit <= 70 {
        Some((digit - 55) as u8)
    } else {
        None
    }
}

/// Executable [`hex_digit_value`].
pub fn hex_value(digit: u8) -> (r: Option<u8>)
    ensures
        r == hex_digit_value(digit),
        r matches Some(v) ==> v < 16,
{
    if digit >= 48 && digit <= 57 {
        Some(digit - 48)
    } else if digit >= 97 && digit <= 102 {
        Some(digit - 87)
    } else if digit >= 65 && digit <= 70 {
        Some(digit - 55)
    } else {
        None
    }
}

/// The byte of the escape that opens some bytes: a percent sign and two
/// hexadecimal digits.
pub open spec fn escape_at(bytes: Seq<u8>) -> Option<u8> {
    if bytes.len() >= 3 && bytes[0] == 37 {
        match (hex_digit_value(bytes[1]), hex_digit_value(bytes[2])) {
            (Some(high), Some(low)) => Some((high * 16 + low) as u8),
            _ => None,
        }
    } else {
        None
    }
}

pub open spec fn prepend(head: Seq<u8>, tail: Option<Seq<u8>>) -> Option<Seq<u8>> {
    match tail {
        Some(t) => Some(head + t),
        None => None,
    }
}

/// Bytes with every escape decoded; nothing when a percent sign opens none.
pub open spec fn unescaped(bytes: Seq<u8>) -> Option<Seq<u8>>
    decreases bytes.len(),
{
    if bytes.len() == 0 {
        Some(Seq::empty())
    } else if bytes[0] == 37 {
        match escape_at(bytes) {
            Some(b) => prepend(seq![b], unescaped(bytes.skip(3))),
            None => None,
        }
    } else {
        prepend(seq![bytes[0]], unescaped(bytes.skip(1)))
    }
}

/// Bytes with every well-formed escape decoded; a stray percent sign stays.
pub open spec fn unescaped_leniently(bytes: Seq<u8>) -> Seq<u8>
    decreases bytes.len(),
{
    if bytes.len() == 0 {
        Seq::empty()
    } else {
        match escape_at(bytes) {
            Some(b) => seq![b] + unescaped_leniently(bytes.skip(3)),
            None => seq![bytes[0]] + unescaped_leniently(bytes.skip(1)),
        }
    }
}

/// The text that a percent-encoded text spells: nothing when an escape is
/// malformed or the decoded bytes are no text.
pub open spec fn decoded(raw: Seq<char>) -> Option<Seq<char>> {
    match unescaped(vstd::utf8::encode_utf8(raw)) {
        Some(b) => if vstd::utf8::valid_utf8(b) {
            Some(vstd::utf8::decode_utf8(b))
        } else {
            None
        },
        None => None,
    }
}

fn escape_from(bytes: &Vec<u8>, i: usize) -> (r: Option<u8>)
    requires
        i < bytes.len(),
    ensures
        r == escape_at(bytes@.skip(i as int)),
        r is Some ==> i + 3 <= bytes.len(),
{
    let ghost s = bytes@.skip(i as int);
    assert(s[0] == bytes@[i as int]);
    if bytes[i] != 37 || bytes.len() - i < 3 {
        return None;
    }
    assert(s[1] == bytes@[i + 1]);
    assert(s[2] == bytes@[i + 2]);
    match hex_value(bytes[i + 1]) {
        Some(high) => match hex_value(bytes[i + 2]) {
            Some(low) => Some(high * 16 + low),
            None => None,
        },
        None => None,
    }
}

/// Decodes percent escapes once. A malformed escape, or decoded bytes that
/// are not valid UTF-8, have no decoded spelling.
pub fn percent_decode(raw: &str) -> (r: Option<String>)
    ensures
        text::opt_text(r) == decoded(raw@),
{
    let bytes: Vec<u8> = bytes_of(raw);
    let mut out: Vec<u8> = Vec::new();
    let mut i: usize = 0;
    assert(bytes@.skip(0) =~= bytes@);
    assert(forall|t: Seq<u8>| #[trigger] (Seq::<u8>::empty() + t) =~= t);
    assert(unescaped(bytes@) == prepend(out@, unescaped(bytes@.skip(0))));
    while i < bytes.len()
        invariant
            i <= bytes.len(),
            unescaped(bytes@) == prepend(out@, unescaped(bytes@.skip(i as int))),
            bytes@ == vstd::utf8::encode_utf8(raw@),
        decreases bytes.len() - i,
    {
        let ghost s = bytes@.skip(i as int);
        let ghost before = out@;
        assert(s[0] == bytes@[i as int]);
        if bytes[i] == 37 {
            match escape_from(&bytes, i) {
                Some(b) => {
                    assert(s.skip(3) =~= bytes@.skip(i + 3));
                    out.push(b);
                    i = i + 3;
                    proof {
                        let t = unescaped(bytes@.skip(i as int));
                        if t is Some {
                            assert(before + (seq![b] + t->0) =~= out@ + t->0);
                        }
                    }
                },
                None => {
                    return None;
                },
            }
        } else {
            assert(s.skip(1) =~= bytes@.skip(i + 1));
            out.push(bytes[i]);
            i = i + 1;
            proof {
                let t = unescaped(bytes@.skip(i as int));
                if t is Some {
                    assert(before + (seq![s[0]] + t->0) =~= out@ + t->0);
                }
            }
        }
    }
    assert(out@ + Seq::<u8>::empty() =~= out@);
    text_from_bytes(out)
}

/// Decodes well-formed escapes and keeps malformed ones as written; bytes
/// that no text can spell are replaced.
pub fn percent_decode_lenient(raw: &str) -> (r: String)
    ensures
        r@ == text::lossy_utf8(unescaped_leniently(vstd::utf8::encode_utf8(raw@))),
{
    let bytes: Vec<u8> = bytes_of(raw);
    let mut out: Vec<u8> = Vec::new();
    let mut i: usize = 0;
    assert(bytes@.skip(0) =~= bytes@);
    assert(unescaped_leniently(bytes@) =~= out@ + unescaped_leniently(bytes@.skip(0)));
    while i < bytes.len()
        invariant
            i <= bytes.len(),
            unescaped_leniently(bytes@) == out@ + unescaped_leniently(bytes@.skip(i as int)),
        decreases bytes.len() - i,
    {
        let ghost s = bytes@.skip(i as int);
        let ghost before = out@;
        assert(s[0] == bytes@[i as int]);
        match escape_from(&bytes, i) {
            Some(b) => {
                assert(s.skip(3) =~= bytes@.skip(i + 3));
                out.push(b);
                i = i + 3;
                assert(before + (seq![b] + unescaped_leniently(bytes@.skip(i as int))) =~= out@
                    + unescaped_leniently(bytes@.skip(i as int)));
            },
            None => {
                assert(s.skip(1) =~= bytes@.skip(i + 1));
                out.push(bytes[i]);
                i = i + 1;
                assert(before + (seq![s[0]] + unescaped_leniently(bytes@.skip(i as int))) =~= out@
                    + unescaped_leniently(bytes@.skip(i as int)));
            },
        }
    }
    assert(out@ + Seq::<u8>::empty() =~= out@);
    lossy_text(out.as_slice())
}

/// The decoded spelling, or the spelling itself when it does not decode.
pub open spec fn identity_of(raw: Seq<char>) -> Seq<char> {
    match decoded(raw) {
        Some(t) => t,
        None => raw,
    }
}

/// Executable [`identity_of`].
pub fn decoded_identity(raw: &str) -> (r: String)
    ensures
        r@ == identity_of(raw@),
{
    match percent_decode(raw) {
        Some(t) => t,
        None => owned(raw),
    }
}

/// The shape of a scheme: a letter, then letters, digits, `+`, `-`, `.`.
pub open spec fn is_scheme(s: Seq<char>) -> bool {
    &&& s.len() > 0
    &&& scan::is_ascii_letter(s[0])
    &&& forall|i: int| 0 <= i < s.len() ==> is_scheme_char(#[trigger] s[i])
}

pub open spec fn is_scheme_char(c: char) -> bool {
    scan::is_ascii_letter(c) || text::is_digit(c) || c == '+' || c == '-' || c
        == '.'
}

fn scheme_shaped(s: &str) -> (r: bool)
    ensures
        r == is_scheme(s@),
{
    let chars: Vec<char> = chars_of(s);
    if chars.len() == 0 || !ascii_letter(chars[0]) {
        return false;
    }
    let mut i: usize = 0;
    while i < chars.len()
        invariant
            i <= chars.len(),
            chars@ == s@,
            forall|j: int| 0 <= j < i ==> is_scheme_char(#[trigger] s@[j]),
        decreases chars.len() - i,
    {
        let c: char = chars[i];
        if !(ascii_letter(c) || (c >= '0' && c <= '9') || c == '+' || c == '-' || c == '.') {
            assert(!is_scheme_char(s@[i as int]));
            return false;
        }
        i = i + 1;
    }
    true
}

/// The scheme-shaped prefix of a spelling and what follows its colon.
pub open spec fn leading_scheme(raw: Seq<char>) -> Option<(Seq<char>, Seq<char>)> {
    match scan::parted(raw, ':') {
        Some((scheme, rest)) => if is_scheme(scheme) {
            Some((scheme, rest))
        } else {
            None
        },
        None => None,
    }
}

/// Splits a scheme-shaped prefix off at the first colon.
pub fn split_leading_scheme(raw: &str) -> (r: Option<(String, String)>)
    ensures
        scan::pair_view(r) == leading_scheme(raw@),
{
    match split_once(raw, ':') {
        Some((scheme, rest)) => if scheme_shaped(scheme.as_str()) {
            Some((scheme, rest))
        } else {
            None
        },
        None => None,
    }
}

/// A scheme under which a backslash reads as a slash.
pub open spec fn special_scheme(scheme: Seq<char>) -> bool {
    let s = scan::lowered(scheme);
    s == "http"@ || s == "https"@ || s == "ws"@ || s == "wss"@ || s == "ftp"@ || s == "file"@
}

/// Executable [`special_scheme`].
pub fn is_special_scheme(scheme: &str) -> (r: bool)
    ensures
        r == special_scheme(scheme@),
{
    let s: String = lower(scheme);
    same(s.as_str(), "http") || same(s.as_str(), "https") || same(s.as_str(), "ws") || same(
        s.as_str(),
        "wss",
    ) || same(s.as_str(), "ftp") || same(s.as_str(), "file")
}

pub open spec fn is_separator(c: char) -> bool {
    c == '/' || c == '\\'
}

/// Two separators of either kind open an authority.
pub open spec fn authority_intro(raw: Seq<char>) -> bool {
    raw.len() >= 2 && is_separator(raw[0]) && is_separator(raw[1])
}

/// Executable [`authority_intro`].
pub fn has_authority_intro(raw: &str) -> (r: bool)
    ensures
        r == authority_intro(raw@),
{
    let c: Vec<char> = chars_of(raw);
    c.len() >= 2 && (c[0] == '/' || c[0] == '\\') && (c[1] == '/' || c[1] == '\\')
}

/// A host segment with an explicit port: what precedes the colon is no drive
/// letter and what follows it is empty or digits.
pub open spec fn has_port(host: Seq<char>) -> bool {
    match scan::parted(host, ':') {
        Some((word, tail)) => !(word.len() == 1 && scan::is_ascii_letter(word[0]))
            && text::all_digits(tail),
        None => false,
    }
}

/// Executable [`has_port`].
pub fn port_shaped(host: &str) -> (r: bool)
    ensures
        r == has_port(host@),
{
    match split_once(host, ':') {
        Some((word, tail)) => {
            let w: Vec<char> = chars_of(word.as_str());
            !(w.len() == 1 && ascii_letter(w[0])) && digits_only(tail.as_str())
        },
        None => false,
    }
}

/// Whether a spelling is web-shaped: a special scheme, an authority
/// introduction, or a bare host with a dot or a port.
pub open spec fn is_web_shaped(raw: Seq<char>) -> bool {
    let schemed = match leading_scheme(raw) {
        Some((scheme, rest)) => if special_scheme(scheme) || text::has_prefix(rest, "//"@) {
            Some(special_scheme(scheme))
        } else {
            None
        },
        None => None,
    };
    match schemed {
        Some(special) => special,
        None => {
            let host = scan::until(raw, "/\\"@);
            authority_intro(raw) || (!(raw.len() > 0 && raw[0] == '/') && (host.contains('.')
                || has_port(host)))
        },
    }
}

/// Executable [`is_web_shaped`].
pub fn web_shaped(raw: &str) -> (r: bool)
    ensures
        r == is_web_shaped(raw@),
{
    match split_leading_scheme(raw) {
        Some((scheme, rest)) => {
            let special: bool = is_special_scheme(scheme.as_str());
            if special || starts_with(rest.as_str(), "//") {
                return special;
            }
        },
        None => {},
    }
    if has_authority_intro(raw) {
        return true;
    }
    if starts_with_char(raw, '/') {
        return false;
    }
    let host: String = until_first(raw, "/\\");
    contains_char(host.as_str(), '.') || port_shaped(host.as_str())
}

/// The spelling every consult sees: tabs and line breaks dropped, spaces and
/// controls trimmed, backslashes folded where the spelling is web-shaped.
pub open spec fn preprocessed(raw: Seq<char>) -> Seq<char> {
    let trimmed = scan::low_trimmed_end(
        scan::low_trimmed_start(scan::without(raw, "\t\n\r"@)),
    );
    if is_web_shaped(trimmed) {
        scan::replaced(trimmed, '\\', "/"@)
    } else {
        trimmed
    }
}

/// Executable [`preprocessed`].
pub fn preprocess_egress_target(raw: &str) -> (r: String)
    ensures
        r@ == preprocessed(raw@),
{
    let kept: String = remove_all(raw, "\t\n\r");
    let trimmed: String = trim_low(kept.as_str());
    if web_shaped(trimmed.as_str()) {
        replace_all(trimmed.as_str(), '\\', "/")
    } else {
        trimmed
    }
}

/// One piece of an authority: a raw delimiter, or the decoded run between
/// two of them.
#[derive(Debug)]
pub enum AuthorityToken<T = String> {
    Delimiter(char),
    Run(T),
}

pub open spec fn token_view(t: AuthorityToken) -> AuthorityToken<Seq<char>> {
    match t {
        AuthorityToken::Delimiter(c) => AuthorityToken::Delimiter(c),
        AuthorityToken::Run(s) => AuthorityToken::Run(s@),
    }
}

pub open spec fn token_views(t: Seq<AuthorityToken>) -> Seq<AuthorityToken<Seq<char>>> {
    t.map_values(|x: AuthorityToken| token_view(x))
}

/// The pieces of an authority, split at its raw `@` and `:`.
pub open spec fn tokens_of(s: Seq<char>) -> Seq<AuthorityToken<Seq<char>>>
    decreases s.len(),
{
    let n = scan::first_of(s, "@:"@);
    if 0 <= n < s.len() {
        seq![
            AuthorityToken::Run(identity_of(s.take(n))),
            AuthorityToken::Delimiter(s[n]),
        ] + tokens_of(s.skip(n + 1))
    } else {
        seq![AuthorityToken::Run(identity_of(s))]
    }
}

fn delimiter(c: char) -> (r: AuthorityToken)
    ensures
        token_view(r) == AuthorityToken::<Seq<char>>::Delimiter(c),
{
    AuthorityToken::Delimiter(c)
}

/// Executable [`tokens_of`].
pub fn authority_tokens(authority: &str) -> (r: Vec<AuthorityToken>)
    ensures
        token_views(r@) == tokens_of(authority@),
{
    let mut out: Vec<AuthorityToken> = Vec::new();
    let mut rest: String = owned(authority);
    assert(token_views(out@) + tokens_of(rest@) =~= tokens_of(authority@));
    loop
        invariant
            token_views(out@) + tokens_of(rest@) == tokens_of(authority@),
        decreases rest@.len(),
    {
        let chars: Vec<char> = chars_of(rest.as_str());
        let n: usize = scan::find_of(&chars, "@:");
        let ghost before = token_views(out@);
        if n < chars.len() {
            let head: String = text_of(&chars, 0, n);
            assert(head@ =~= rest@.take(n as int));
            let run: AuthorityToken = AuthorityToken::Run(decoded_identity(head.as_str()));
            let mark: AuthorityToken = delimiter(chars[n]);
            let ghost pieces = Seq::<AuthorityToken<Seq<char>>>::empty().push(
                token_view(run),
            ).push(token_view(mark));
            let tail: String = text_of(&chars, n + 1, chars.len());
            assert(tail@ =~= rest@.skip(n as int + 1));
            let ghost held = out@;
            out.push(run);
            let ghost mid = token_views(out@);
            assert(mid =~= before.push(pieces[0]));
            out.push(mark);
            assert(token_views(out@) =~= mid.push(pieces[1]));
            assert(token_views(out@) =~= before + pieces);
            assert(before + (pieces + tokens_of(tail@)) =~= token_views(out@) + tokens_of(tail@));
            rest = tail;
        } else {
            let run: AuthorityToken = AuthorityToken::Run(decoded_identity(rest.as_str()));
            let ghost piece = token_view(run);
            out.push(run);
            assert(token_views(out@) =~= before + seq![piece]);
            return out;
        }
    }
}

/// The layout of a URL-shaped spelling.
#[derive(Debug)]
pub struct UrlBlobSegments {
    pub intro: String,
    pub authority: Vec<AuthorityToken>,
    pub tail: String,
}

/// The mathematical value of a layout.
pub struct SegmentsView {
    pub intro: Seq<char>,
    pub authority: Seq<AuthorityToken<Seq<char>>>,
    pub tail: Seq<char>,
}

impl View for UrlBlobSegments {
    type V = SegmentsView;

    open spec fn view(&self) -> SegmentsView {
        SegmentsView {
            intro: self.intro@,
            authority: token_views(self.authority@),
            tail: self.tail@,
        }
    }
}

/// The introduction of a URL-shaped spelling and its body.
pub open spec fn introduced(raw: Seq<char>) -> Option<(Seq<char>, Seq<char>)> {
    match scan::stripped(raw, "//"@) {
        Some(body) => Some(("//"@, body)),
        None => match leading_scheme(raw) {
            Some((scheme, rest)) => match scan::stripped(rest, "//"@) {
                Some(body) => Some((scheme + "://"@, body)),
                None => None,
            },
            None => None,
        },
    }
}

/// The layout of a URL-shaped spelling; nothing for any other.
pub open spec fn segments_of(raw: Seq<char>) -> Option<SegmentsView> {
    match introduced(raw) {
        Some((intro, body)) => Some(
            SegmentsView {
                intro,
                authority: tokens_of(scan::until(body, "/?#"@)),
                tail: identity_of(scan::since(body, "/?#"@)),
            },
        ),
        None => None,
    }
}

pub open spec fn segments_view(s: Option<UrlBlobSegments>) -> Option<SegmentsView> {
    match s {
        Some(x) => Some(x@),
        None => None,
    }
}

/// Splits a URL-shaped spelling into introduction, authority and tail.
pub fn url_blob_segments(raw: &str) -> (r: Option<UrlBlobSegments>)
    ensures
        segments_view(r) == segments_of(raw@),
{
    let (intro, body): (String, String) = match strip_prefix(raw, "//") {
        Some(body) => (owned("//"), body),
        None => match split_leading_scheme(raw) {
            Some((scheme, rest)) => match strip_prefix(rest.as_str(), "//") {
                Some(body) => (text2(scheme.as_str(), "://"), body),
                None => {
                    return None;
                },
            },
            None => {
                return None;
            },
        },
    };
    let authority: String = until_first(body.as_str(), "/?#");
    let tail: String = since_first(body.as_str(), "/?#");
    Some(
        UrlBlobSegments {
            intro,
            authority: authority_tokens(authority.as_str()),
            tail: decoded_identity(tail.as_str()),
        },
    )
}

fn same_tokens(a: &Vec<AuthorityToken>, b: &Vec<AuthorityToken>) -> (r: bool)
    ensures
        r == (token_views(a@) == token_views(b@)),
{
    if a.len() != b.len() {
        assert(token_views(a@).len() != token_views(b@).len());
        return false;
    }
    let mut i: usize = 0;
    while i < a.len()
        invariant
            i <= a.len(),
            a.len() == b.len(),
            forall|j: int| 0 <= j < i ==> token_view(#[trigger] a@[j]) == token_view(b@[j]),
        decreases a.len() - i,
    {
        let equal: bool = match (&a[i], &b[i]) {
            (AuthorityToken::Delimiter(x), AuthorityToken::Delimiter(y)) => *x == *y,
            (AuthorityToken::Run(x), AuthorityToken::Run(y)) => same(x.as_str(), y.as_str()),
            _ => false,
        };
        if !equal {
            assert(token_views(a@)[i as int] != token_views(b@)[i as int]);
            return false;
        }
        i = i + 1;
    }
    assert(token_views(a@) =~= token_views(b@));
    true
}

/// Whether two spellings name one target: the segments of two URL-shaped
/// spellings agree, or else the decoded spellings do.
pub open spec fn same_target(left: Seq<char>, right: Seq<char>) -> bool {
    match (segments_of(left), segments_of(right)) {
        (Some(l), Some(r)) => l == r,
        _ => identity_of(left) == identity_of(right),
    }
}

/// Executable [`same_target`].
pub fn same_decoded_identity(left: &str, right: &str) -> (r: bool)
    ensures
        r == same_target(left@, right@),
{
    match (url_blob_segments(left), url_blob_segments(right)) {
        (Some(l), Some(r)) => {
            same(l.intro.as_str(), r.intro.as_str()) && same_tokens(&l.authority, &r.authority)
                && same(l.tail.as_str(), r.tail.as_str())
        },
        _ => {
            let l: String = decoded_identity(left);
            let r: String = decoded_identity(right);
            same(l.as_str(), r.as_str())
        },
    }
}

/// The authority and path of a normalized spelling.
pub open spec fn key_of(normalized: Seq<char>) -> Seq<char> {
    match scan::parted_by(normalized, "://"@) {
        Some((_, rest)) => rest,
        None => normalized,
    }
}

/// Executable [`key_of`].
pub fn url_key(normalized: &str) -> (r: String)
    ensures
        r@ == key_of(normalized@),
{
    match split_by(normalized, "://") {
        Some((_, rest)) => rest,
        None => owned(normalized),
    }
}

/// A schemeful request matches by its full form, a schemeless one by
/// authority and path.
pub open spec fn form_match(
    request: Option<Seq<char>>,
    schemeless: Option<Seq<char>>,
    denied: Seq<char>,
) -> bool {
    match (request, schemeless) {
        (Some(r), _) => same_target(r, denied),
        (None, Some(s)) => same_target(key_of(s), key_of(denied)),
        (None, None) => false,
    }
}

/// Executable [`form_match`].
pub fn url_form_matches(
    request: &Option<String>,
    schemeless: &Option<String>,
    denied: &str,
) -> (r: bool)
    ensures
        r == form_match(
            text::opt_text(*request),
            text::opt_text(*schemeless),
            denied@,
        ),
{
    match (request, schemeless) {
        (Some(r), _) => same_decoded_identity(r.as_str(), denied),
        (None, Some(s)) => {
            let a: String = url_key(s.as_str());
            let b: String = url_key(denied);
            same_decoded_identity(a.as_str(), b.as_str())
        },
        (None, None) => false,
    }
}

pub open spec fn key_match_one(spelling: Option<Seq<char>>, denied: Seq<char>) -> bool {
    match spelling {
        Some(s) => same_target(key_of(s), key_of(denied)),
        None => false,
    }
}

/// A deny enrolled without a scheme matches any spelling of the request by
/// authority and path.
pub open spec fn key_match(
    request: Option<Seq<char>>,
    schemeless: Option<Seq<char>>,
    folded: Option<Seq<char>>,
    denied: Seq<char>,
) -> bool {
    key_match_one(request, denied) || key_match_one(schemeless, denied) || key_match_one(
        folded,
        denied,
    )
}

fn key_matches_one(spelling: &Option<String>, denied: &str) -> (r: bool)
    ensures
        r == key_match_one(text::opt_text(*spelling), denied@),
{
    match spelling {
        Some(s) => {
            let a: String = url_key(s.as_str());
            let b: String = url_key(denied);
            same_decoded_identity(a.as_str(), b.as_str())
        },
        None => false,
    }
}

/// Executable [`key_match`].
pub fn url_key_matches(
    request: &Option<String>,
    schemeless: &Option<String>,
    folded: &Option<String>,
    denied: &str,
) -> (r: bool)
    ensures
        r == key_match(
            text::opt_text(*request),
            text::opt_text(*schemeless),
            text::opt_text(*folded),
            denied@,
        ),
{
    key_matches_one(request, denied) || key_matches_one(schemeless, denied) || key_matches_one(
        folded,
        denied,
    )
}

/// Whether the scheme of a spelling was carried by it or guessed for it.
#[derive(Debug, Clone, Copy, PartialEq, Eq, Structural)]
pub enum SchemeKnowledge {
    Carried,
    Guessed,
}

/// The default port of a web scheme.
pub open spec fn default_port(scheme: Seq<char>, port: u16) -> bool {
    (scheme == "http"@ && port == 80) || (scheme == "https"@ && port == 443)
}

/// Executable [`default_port`].
pub fn is_default_port(scheme: &str, port: u16) -> (r: bool)
    ensures
        r == default_port(scheme@, port),
{
    (port == 80 && same(scheme, "http")) || (port == 443 && same(scheme, "https"))
}

/// Whether a port is the default of either web scheme.
pub fn is_any_default_port(port: u16) -> (r: bool)
    ensures
        r == (port == 80 || port == 443),
{
    port == 80 || port == 443
}

/// Host and port of an authority; brackets of an IPv6 host stay together.
/// Nothing when an opening bracket is not closed.
pub open spec fn host_and_port(authority: Seq<char>) -> Option<(Seq<char>, Seq<char>)> {
    if authority.len() > 0 && authority[0] == '[' {
        let end = scan::first_of(authority, "]"@);
        if end < authority.len() {
            let after = authority.skip(end + 1);
            Some(
                (
                    authority.take(end + 1),
                    if after.len() > 0 && after[0] == ':' {
                        after.skip(1)
                    } else {
                        Seq::empty()
                    },
                ),
            )
        } else {
            None
        }
    } else {
        match scan::parted_last(authority, ':') {
            Some((host, port)) => if text::all_digits(port) {
                Some((host, port))
            } else {
                Some((authority, Seq::empty()))
            },
            None => Some((authority, Seq::empty())),
        }
    }
}

/// Executable [`host_and_port`].
pub fn split_host_port(authority: &str) -> (r: Option<(String, String)>)
    ensures
        scan::pair_view(r) == host_and_port(authority@),
{
    let chars: Vec<char> = chars_of(authority);
    if chars.len() > 0 && chars[0] == '[' {
        let end: usize = scan::find_of(&chars, "]");
        if end >= chars.len() {
            return None;
        }
        let host: String = text_of(&chars, 0, end + 1);
        assert(host@ =~= authority@.take(end + 1));
        let ghost after = authority@.skip(end + 1);
        if end + 1 < chars.len() && chars[end + 1] == ':' {
            assert(after[0] == ':');
            let port: String = text_of(&chars, end + 2, chars.len());
            assert(port@ =~= after.skip(1));
            return Some((host, port));
        }
        assert(after.len() > 0 ==> after[0] == authority@[end + 1]);
        return Some((host, String::new()));
    }
    match split_last(authority, ':') {
        Some((host, port)) => if digits_only(port.as_str()) {
            Some((host, port))
        } else {
            Some((owned(authority), String::new()))
        },
        None => Some((owned(authority), String::new())),
    }
}

/// What follows the last `@`: an authority without its userinfo.
pub open spec fn without_userinfo(authority: Seq<char>) -> Seq<char> {
    match scan::parted_last(authority, '@') {
        Some((_, host)) => host,
        None => authority,
    }
}

fn strip_userinfo(authority: &str) -> (r: String)
    ensures
        r@ == without_userinfo(authority@),
{
    match split_last(authority, '@') {
        Some((_, host)) => host,
        None => owned(authority),
    }
}

/// Whether a decoded authority names the local host: the loopback IPv4 range
/// in any number spelling, or the loopback IPv6 address in brackets.
pub open spec fn names_loopback(host: Seq<char>) -> bool {
    if host.len() >= 2 && host[0] == '[' && host.last() == ']' {
        let inner = host.subrange(1, host.len() - 1);
        let address = match scan::parted_last(inner, '%') {
            Some((a, _)) => a,
            None => inner,
        };
        address::is_loopback_v6(address)
    } else {
        match address::v4_value(host) {
            Some(n) => n / 16777216 == 127,
            None => false,
        }
    }
}

/// Executable [`names_loopback`].
pub fn is_loopback_authority(host: &str) -> (r: bool)
    ensures
        r == names_loopback(host@),
{
    let chars: Vec<char> = chars_of(host);
    if chars.len() >= 2 && chars[0] == '[' && chars[chars.len() - 1] == ']' {
        let inner: String = text_of(&chars, 1, chars.len() - 1);
        return match split_last(inner.as_str(), '%') {
            Some((address, _)) => loopback_v6(address.as_str()),
            None => loopback_v6(inner.as_str()),
        };
    }
    match v4_number(host) {
        Some(n) => n / 16777216 == 127,
        None => false,
    }
}

/// The local form of one file authority and path.
pub open spec fn folded_file(authority: Seq<char>, path: Seq<char>) -> Seq<char> {
    let host_port = without_userinfo(authority);
    let raw_host = match host_and_port(host_port) {
        Some((host, _)) => host,
        None => host_port,
    };
    let local = scan::lowered(identity_of(raw_host));
    let host = if local == ""@ || local == "localhost"@ || local == "localhost.localdomain"@
        || names_loopback(local) {
        Seq::<char>::empty()
    } else {
        scan::replaced(scan::lowered(raw_host), '%', "%25"@)
    };
    "file://"@ + host + path
}

/// Executable [`folded_file`].
pub fn fold_file_authority(authority: &str, path: &str) -> (r: String)
    ensures
        r@ == folded_file(authority@, path@),
{
    let host_port: String = strip_userinfo(authority);
    let raw_host: String = match split_host_port(host_port.as_str()) {
        Some((host, _)) => host,
        None => owned(host_port.as_str()),
    };
    let decoded_host: String = decoded_identity(raw_host.as_str());
    let local: String = lower(decoded_host.as_str());
    let host: String = if same(local.as_str(), "") || same(local.as_str(), "localhost") || same(
        local.as_str(),
        "localhost.localdomain",
    ) || is_loopback_authority(local.as_str()) {
        String::new()
    } else {
        let low: String = lower(raw_host.as_str());
        replace_all(low.as_str(), '%', "%25")
    };
    text3("file://", host.as_str(), path)
}

/// The canonical local form of a file URL.
pub open spec fn file_form(rest: Seq<char>) -> Seq<char> {
    let r = scan::until(rest, "?#"@);
    match scan::stripped(r, "//"@) {
        None => folded_file(""@, r),
        Some(after) => {
            let n = scan::first_of(after, "/"@);
            if n < after.len() {
                folded_file(after.take(n), after.skip(n))
            } else {
                match decoded(after) {
                    Some(d) => if d.len() > 0 && d[0] == '/' {
                        "file://"@ + d
                    } else {
                        folded_file(after, "/"@)
                    },
                    None => folded_file(after, "/"@),
                }
            }
        },
    }
}

/// Executable [`file_form`].
pub fn normalize_file_url(rest: &str) -> (r: String)
    ensures
        r@ == file_form(rest@),
{
    let r: String = until_first(rest, "?#");
    match strip_prefix(r.as_str(), "//") {
        None => fold_file_authority("", r.as_str()),
        Some(after) => {
            let chars: Vec<char> = chars_of(after.as_str());
            let n: usize = scan::find_of(&chars, "/");
            if n < chars.len() {
                let a: String = text_of(&chars, 0, n);
                let p: String = text_of(&chars, n, chars.len());
                assert(a@ =~= after@.take(n as int));
                assert(p@ =~= after@.skip(n as int));
                fold_file_authority(a.as_str(), p.as_str())
            } else {
                match percent_decode(after.as_str()) {
                    Some(d) => if starts_with_char(d.as_str(), '/') {
                        text2("file://", d.as_str())
                    } else {
                        fold_file_authority(after.as_str(), "/")
                    },
                    None => fold_file_authority(after.as_str(), "/"),
                }
            }
        },
    }
}

/// The port part of a normalized spelling.
pub open spec fn port_form(
    scheme: Seq<char>,
    port: Seq<char>,
    knowledge: SchemeKnowledge,
) -> Seq<char> {
    if port.len() == 0 {
        Seq::empty()
    } else {
        match scan::based_number(port, 10) {
            Some(n) => if n <= 65535 {
                let folds = match knowledge {
                    SchemeKnowledge::Carried => default_port(scheme, n as u16),
                    SchemeKnowledge::Guessed => n == 80 || n == 443,
                };
                if folds {
                    Seq::empty()
                } else {
                    ":"@ + text::decimal(n as nat)
                }
            } else {
                ":"@ + port
            },
            None => ":"@ + port,
        }
    }
}

fn port_text(scheme: &str, port: &str, knowledge: SchemeKnowledge) -> (r: String)
    ensures
        r@ == port_form(scheme@, port@, knowledge),
{
    let empty: bool = chars_of(port).len() == 0;
    if empty {
        return String::new();
    }
    match parse_based(port, 10) {
        Some(n) => if n <= 65535 {
            let number: u16 = n as u16;
            let folds: bool = match knowledge {
                SchemeKnowledge::Carried => is_default_port(scheme, number),
                SchemeKnowledge::Guessed => is_any_default_port(number),
            };
            if folds {
                String::new()
            } else {
                let d: String = decimal_text(n);
                text2(":", d.as_str())
            }
        } else {
            text2(":", port)
        },
        None => text2(":", port),
    }
}

/// What follows the separators that open the authority.
pub open spec fn after_separators(scheme: Seq<char>, rest: Seq<char>) -> Option<Seq<char>> {
    if scheme == "http"@ || scheme == "https"@ || scheme == "ws"@ || scheme == "wss"@ || scheme
        == "ftp"@ {
        Some(scan::trimmed_start(rest, "/\\"@))
    } else {
        scan::stripped(rest, "//"@)
    }
}

/// The normalized form of a web spelling, from its lower-case scheme and
/// what follows the separators.
pub open spec fn web_form(
    scheme: Seq<char>,
    rest: Seq<char>,
    knowledge: SchemeKnowledge,
) -> Option<Seq<char>> {
    let authority = scan::until(rest, "/?#"@);
    let tail = scan::since(rest, "/?#"@);
    let path = match scan::stripped(tail, "/"@) {
        Some(p) => scan::until(p, "?#"@),
        None => Seq::empty(),
    };
    match host_and_port(without_userinfo(authority)) {
        Some((host, port)) => Some(
            scheme + "://"@ + scan::lowered(host) + port_form(
                scheme,
                port,
                knowledge,
            ) + ("/"@ + path),
        ),
        None => None,
    }
}

/// Whether a spelling carries the file scheme, and what follows its colon.
pub open spec fn file_rest(raw: Seq<char>) -> Option<Seq<char>> {
    match scan::parted(raw, ':') {
        Some((scheme, rest)) => if scan::lowered(scheme) == "file"@ {
            Some(rest)
        } else {
            None
        },
        None => None,
    }
}

/// What follows the `file:` prefix of a spelling.
pub fn file_scheme_rest(raw: &str) -> (r: Option<String>)
    ensures
        text::opt_text(r) == file_rest(raw@),
{
    match split_once(raw, ':') {
        Some((scheme, rest)) => {
            let s: String = lower(scheme.as_str());
            if same(s.as_str(), "file") {
                Some(rest)
            } else {
                None
            }
        },
        None => None,
    }
}

/// The normalized form of an egress spelling: scheme and host in lower case,
/// no userinfo, query, fragment or default port. Nothing when the spelling
/// opens with no scheme.
pub open spec fn normal_form(raw: Seq<char>, knowledge: SchemeKnowledge) -> Option<Seq<char>> {
    match file_rest(raw) {
        Some(rest) => Some(file_form(rest)),
        None => match leading_scheme(raw) {
            Some((raw_scheme, rest)) => {
                let scheme = scan::lowered(raw_scheme);
                match after_separators(scheme, rest) {
                    Some(r) => web_form(scheme, r, knowledge),
                    None => None,
                }
            },
            None => None,
        },
    }
}

/// Executable [`normal_form`].
pub fn normalize_egress_url(raw: &str, knowledge: SchemeKnowledge) -> (r: Option<String>)
    ensures
        text::opt_text(r) == normal_form(raw@, knowledge),
{
    match file_scheme_rest(raw) {
        Some(rest) => {
            return Some(normalize_file_url(rest.as_str()));
        },
        None => {},
    }
    let (raw_scheme, rest): (String, String) = match split_leading_scheme(raw) {
        Some(p) => p,
        None => {
            return None;
        },
    };
    let scheme: String = lower(raw_scheme.as_str());
    let s: &str = scheme.as_str();
    let rest: String = if same(s, "http") || same(s, "https") || same(s, "ws") || same(s, "wss")
        || same(s, "ftp") {
        trim_start(rest.as_str(), "/\\")
    } else {
        match strip_prefix(rest.as_str(), "//") {
            Some(r) => r,
            None => {
                return None;
            },
        }
    };
    let authority: String = until_first(rest.as_str(), "/?#");
    let tail: String = since_first(rest.as_str(), "/?#");
    let path: String = match strip_prefix(tail.as_str(), "/") {
        Some(p) => until_first(p.as_str(), "?#"),
        None => String::new(),
    };
    let host_port: String = strip_userinfo(authority.as_str());
    match split_host_port(host_port.as_str()) {
        Some((host, port)) => {
            let low: String = lower(host.as_str());
            let p: String = port_text(s, port.as_str(), knowledge);
            let slash: String = text2("/", path.as_str());
            Some(text5(s, "://", low.as_str(), p.as_str(), slash.as_str()))
        },
        None => None,
    }
}

/// Whether a spelling opens with a scheme that counts as carried.
pub open spec fn carries_scheme(raw: Seq<char>) -> bool {
    match leading_scheme(raw) {
        Some((scheme, rest)) => text::has_prefix(rest, "//"@) || special_scheme(scheme),
        None => false,
    }
}

/// Executable [`carries_scheme`].
pub fn has_leading_scheme(raw: &str) -> (r: bool)
    ensures
        r == carries_scheme(raw@),
{
    match split_leading_scheme(raw) {
        Some((scheme, rest)) => starts_with(rest.as_str(), "//") || is_special_scheme(
            scheme.as_str(),
        ),
        None => false,
    }
}

/// The form of a schemeless spelling under the default scheme.
pub open spec fn guessed_form(raw: Seq<char>) -> Option<Seq<char>> {
    match scan::stripped(raw, "//"@) {
        Some(rest) => normal_form(
            "https://"@ + scan::trimmed_start(rest, "/\\"@),
            SchemeKnowledge::Guessed,
        ),
        None => if raw.len() > 0 && is_separator(raw[0]) {
            None
        } else {
            normal_form("https://"@ + raw, SchemeKnowledge::Guessed)
        },
    }
}

/// Executable [`guessed_form`].
pub fn schemeless_retry(raw: &str) -> (r: Option<String>)
    ensures
        text::opt_text(r) == guessed_form(raw@),
{
    let candidate: String = match strip_prefix(raw, "//") {
        Some(rest) => {
            let body: String = trim_start(rest.as_str(), "/\\");
            text2("https://", body.as_str())
        },
        None => {
            if starts_with_char(raw, '/') || starts_with_char(raw, '\\') {
                return None;
            }
            text2("https://", raw)
        },
    };
    normalize_egress_url(candidate.as_str(), SchemeKnowledge::Guessed)
}

/// The form of an enrolled entry without a scheme: one with no path
/// separator is an identifier and has none.
pub open spec fn guessed_deny_form(denied: Seq<char>) -> Option<Seq<char>> {
    if denied.contains('/') {
        guessed_form(denied)
    } else {
        None
    }
}

/// Executable [`guessed_deny_form`].
pub fn schemeless_deny_form(denied: &str) -> (r: Option<String>)
    ensures
        text::opt_text(r) == guessed_deny_form(denied@),
{
    if contains_char(denied, '/') {
        schemeless_retry(denied)
    } else {
        None
    }
}

/// The path a file URL names; nothing when its escapes do not decode.
pub open spec fn file_path(rest: Seq<char>) -> Option<Seq<char>> {
    match scan::stripped(rest, "//"@) {
        None => decoded(rest),
        Some(after) => {
            let n = scan::first_of(after, "/"@);
            if n < after.len() {
                decoded(after.skip(n))
            } else {
                match decoded(after) {
                    Some(d) => if d.len() > 0 && d[0] == '/' {
                        Some(d)
                    } else {
                        Some("/"@)
                    },
                    None => None,
                }
            }
        },
    }
}

/// Executable [`file_path`].
pub fn file_url_path(rest: &str) -> (r: Option<String>)
    ensures
        text::opt_text(r) == file_path(rest@),
{
    match strip_prefix(rest, "//") {
        None => percent_decode(rest),
        Some(after) => {
            let chars: Vec<char> = chars_of(after.as_str());
            let n: usize = scan::find_of(&chars, "/");
            if n < chars.len() {
                let p: String = text_of(&chars, n, chars.len());
                assert(p@ =~= after@.skip(n as int));
                percent_decode(p.as_str())
            } else {
                match percent_decode(after.as_str()) {
                    Some(d) => if starts_with_char(d.as_str(), '/') {
                        Some(d)
                    } else {
                        Some(owned("/"))
                    },
                    None => None,
                }
            }
        },
    }
}

/// What an egress spelling means to the file system.
#[derive(Debug)]
pub enum EgressFsShape<T = String> {
    /// The absolute path it names.
    Absolute(T),
    /// Path-shaped, but it resolves to no absolute path.
    Unresolvable,
    /// No path at all.
    NotFilesystem,
}

pub open spec fn shape_view(s: EgressFsShape) -> EgressFsShape<Seq<char>> {
    match s {
        EgressFsShape::Absolute(p) => EgressFsShape::Absolute(p@),
        EgressFsShape::Unresolvable => EgressFsShape::Unresolvable,
        EgressFsShape::NotFilesystem => EgressFsShape::NotFilesystem,
    }
}

/// A path that begins at the root.
pub open spec fn is_absolute_path(p: Seq<char>) -> bool {
    p.len() > 0 && p[0] == '/'
}

/// What an egress spelling means to the file system.
pub open spec fn fs_shape(raw: Seq<char>) -> EgressFsShape<Seq<char>> {
    match file_rest(raw) {
        Some(rest) => match file_path(scan::until(rest, "?#"@)) {
            Some(path) => if is_absolute_path(path) {
                EgressFsShape::Absolute(path)
            } else {
                EgressFsShape::Unresolvable
            },
            None => EgressFsShape::Unresolvable,
        },
        None => match decoded(raw) {
            Some(path) => if is_absolute_path(path) {
                EgressFsShape::Absolute(path)
            } else {
                EgressFsShape::NotFilesystem
            },
            None => if is_absolute_path(
                text::lossy_utf8(unescaped_leniently(vstd::utf8::encode_utf8(raw))),
            ) {
                EgressFsShape::Unresolvable
            } else {
                EgressFsShape::NotFilesystem
            },
        },
    }
}

/// Executable [`fs_shape`].
pub fn egress_filesystem_shape(raw: &str) -> (r: EgressFsShape)
    ensures
        shape_view(r) == fs_shape(raw@),
{
    match file_scheme_rest(raw) {
        Some(rest) => {
            let bare: String = until_first(rest.as_str(), "?#");
            return match file_url_path(bare.as_str()) {
                Some(path) => if starts_with_char(path.as_str(), '/') {
                    EgressFsShape::Absolute(path)
                } else {
                    EgressFsShape::Unresolvable
                },
                None => EgressFsShape::Unresolvable,
            };
        },
        None => {},
    }
    match percent_decode(raw) {
        Some(path) => if starts_with_char(path.as_str(), '/') {
            EgressFsShape::Absolute(path)
        } else {
            EgressFsShape::NotFilesystem
        },
        None => {
            let lenient: String = percent_decode_lenient(raw);
            if starts_with_char(lenient.as_str(), '/') {
                EgressFsShape::Unresolvable
            } else {
                EgressFsShape::NotFilesystem
            }
        },
    }
}

/// Naming one target is an equivalence: every spelling names its own target,
/// and the order of comparison does not matter.
pub proof fn law_same_target_is_reflexive_and_symmetric(a: Seq<char>, b: Seq<char>)
    ensures
        same_target(a, a),
        same_target(a, b) == same_target(b, a),
{
}

} // verus!
