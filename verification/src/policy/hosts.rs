//! What numeric hosts denote, and whose files a file URL names.

use crate::executor;
use crate::policy::address;
use crate::policy::scan;
use crate::policy::spelling::{self, is_host_char, plain_host, plain_path};
use crate::policy::url::{self, EgressFsShape, SchemeKnowledge};
use crate::text;
use vstd::prelude::*;

verus! {

/// One to four numbers denote one address however many of them there are: the
/// last fills the bytes that the others left.
pub proof fn law_short_forms_denote_one_address(a: u64, b: u64, c: u64, d: u64)
    requires
        a <= 255,
        b <= 255,
        c <= 255,
        d <= 255,
    ensures
        ({
            let full = a * 16777216 + b * 65536 + c * 256 + d;
            let whole = full as u64;
            let last3 = (b * 65536 + c * 256 + d) as u64;
            let last2 = (c * 256 + d) as u64;
            &&& address::v4_address(seq![a, b, c, d]) == Some(whole)
            &&& address::v4_address(seq![a, b, last2]) == Some(whole)
            &&& address::v4_address(seq![a, last3]) == Some(whole)
            &&& address::v4_address(seq![whole]) == Some(whole)
            &&& whole / 16777216 == a
            &&& whole == full
        }),
{
}

/// A number beyond its bytes denotes no address, and neither do five numbers
/// or none.
pub proof fn law_overlong_numbers_denote_nothing(n: Seq<u64>, i: int)
    ensures
        n.len() == 0 || n.len() > 4 ==> address::v4_address(n) is None,
        0 <= i < n.len() - 1 && n[i] > 255 ==> address::v4_address(n) is None,
        n.len() == 4 && n[3] > 255 ==> address::v4_address(n) is None,
        n.len() == 1 && n[0] > 0xFFFF_FFFF ==> address::v4_address(n) is None,
{
}

proof fn lemma_decimal_value(n: nat)
    ensures
        scan::based_value(text::decimal(n), 10) == Some(n),
    decreases n,
{
    let d = text::decimal(n);
    reveal_with_fuel(scan::based_value, 2);
    if n < 10 {
        assert(d.drop_last() =~= Seq::<char>::empty());
        assert(d.last() == text::digit(n));
        assert(scan::digit_value(d.last()) == Some(n));
    } else {
        lemma_decimal_value(n / 10);
        assert(d.drop_last() =~= text::decimal(n / 10));
        assert(d.last() == text::digit(n % 10));
        assert(scan::digit_value(d.last()) == Some(n % 10));
    }
}

/// A part in decimal notation is the number it spells.
pub proof fn law_decimal_part_is_its_number(n: u64)
    ensures
        address::v4_part(text::decimal(n as nat)) == Some(n),
{
    let d = text::decimal(n as nat);
    text::laws::law_decimal_reads_back(n as nat);
    lemma_decimal_value(n as nat);
    reveal_strlit("0x");
    reveal_strlit("0X");
    assert(text::is_digit(d[0]));
    assert(text::unsigned_digits(d) == d);
    if d.len() > 1 {
        assert(text::is_digit(d[1]));
        assert(d.take(2)[1] == d[1]);
        assert("0x"@[1] == 'x' && "0X"@[1] == 'X');
    }
    if n == 0 {
        assert(d =~= seq![text::digit(0)]);
    }
    assert(!text::has_prefix(d, "0x"@));
    assert(!text::has_prefix(d, "0X"@));
}

/// A dotted host.
pub open spec fn dotted(a: nat, b: nat, c: nat, d: nat) -> Seq<char> {
    text::decimal(a) + seq!['.'] + text::decimal(b) + seq!['.'] + text::decimal(c) + seq!['.']
        + text::decimal(d)
}

proof fn lemma_no_dot(n: nat)
    ensures
        !text::decimal(n).contains('.'),
{
    text::laws::law_decimal_reads_back(n);
    let d = text::decimal(n);
    if d.contains('.') {
        let k = choose|k: int| 0 <= k < d.len() && d[k] == '.';
        assert(text::is_digit(d[k]));
    }
}

/// A dotted host is this machine exactly when its first byte is 127.
pub proof fn law_dotted_loopback(a: u64, b: u64, c: u64, d: u64)
    requires
        a <= 255,
        b <= 255,
        c <= 255,
        d <= 255,
    ensures
        url::names_loopback(dotted(a as nat, b as nat, c as nat, d as nat)) <==> a == 127,
{
    let (x, y, z, w) = (
        text::decimal(a as nat),
        text::decimal(b as nat),
        text::decimal(c as nat),
        text::decimal(d as nat),
    );
    let h = dotted(a as nat, b as nat, c as nat, d as nat);
    lemma_no_dot(a as nat);
    lemma_no_dot(b as nat);
    lemma_no_dot(c as nat);
    lemma_no_dot(d as nat);
    executor::laws::lemma_split_one(x, '.');
    executor::laws::lemma_split_one(y, '.');
    executor::laws::lemma_split_one(z, '.');
    executor::laws::lemma_split_one(w, '.');
    executor::laws::lemma_split_join(x, '.', y);
    executor::laws::lemma_split_join(x + seq!['.'] + y, '.', z);
    executor::laws::lemma_split_join(x + seq!['.'] + y + seq!['.'] + z, '.', w);
    let parts = seq![x, y, z, w];
    assert(text::split(h, '.') =~= parts);
    law_decimal_part_is_its_number(a);
    law_decimal_part_is_its_number(b);
    law_decimal_part_is_its_number(c);
    law_decimal_part_is_its_number(d);
    reveal_with_fuel(address::v4_parts, 5);
    assert(parts.drop_last() =~= seq![x, y, z]);
    assert(seq![x, y, z].drop_last() =~= seq![x, y]);
    assert(seq![x, y].drop_last() =~= seq![x]);
    assert(seq![x].drop_last() =~= Seq::<Seq<char>>::empty());
    assert(address::v4_parts(parts) matches Some(n) && n =~= seq![a, b, c, d]);
    law_short_forms_denote_one_address(a, b, c, d);
    text::laws::law_decimal_reads_back(a as nat);
    assert(text::is_digit(x[0]));
    assert(h[0] == x[0]);
}

/// A file URL of a plain host.
pub open spec fn file_url(host: Seq<char>, path: Seq<char>) -> Seq<char> {
    "file"@ + seq![':'] + ("//"@ + host + ("/"@ + path))
}

proof fn lemma_file_parts(host: Seq<char>, path: Seq<char>)
    requires
        plain_host(host) || host.len() == 0,
        plain_path(path),
    ensures
        ({
            let rest = "//"@ + host + ("/"@ + path);
            &&& url::file_rest(file_url(host, path)) == Some(rest)
            &&& scan::until(rest, "?#"@) == rest
            &&& scan::stripped(rest, "//"@) == Some(host + ("/"@ + path))
            &&& scan::first_of(host + ("/"@ + path), "/"@) == host.len()
            &&& (host + ("/"@ + path)).take(host.len() as int) == host
            &&& (host + ("/"@ + path)).skip(host.len() as int) == "/"@ + path
        }),
{
    reveal_strlit("file");
    reveal_strlit("//");
    reveal_strlit("/");
    let rest = "//"@ + host + ("/"@ + path);
    let after = host + ("/"@ + path);
    let n = host.len() as int;
    assert(forall|i: int| 0 <= i < host.len() ==> is_host_char(#[trigger] host[i]));
    spelling::lemma_parted("file"@, ':', rest);
    assert(scan::lowered("file"@) =~= "file"@);
    assert forall|i: int| 0 <= i < rest.len() implies #[trigger] rest[i] != '?' && rest[i]
        != '#' by {
        if 2 <= i < 2 + n {
            assert(rest[i] == host[i - 2]);
        } else if i > 2 + n {
            assert(rest[i] == path[i - 2 - n - 1]);
        }
    }
    spelling::lemma_until_plain(rest);
    assert(rest.take(2) =~= "//"@);
    assert(rest.skip(2) =~= after);
    assert("/"@.contains(after[n])) by {
        assert(after[n] == '/');
        assert("/"@[0] == '/');
    }
    assert forall|i: int| 0 <= i < n implies !"/"@.contains(#[trigger] after[i]) by {
        assert(after[i] == host[i]);
    }
    spelling::lemma_first_is(after, "/"@, n);
    assert(after.take(n) =~= host);
    assert(after.skip(n) =~= "/"@ + path);
}

/// A file URL names this machine's file where its host is empty, one of the
/// two names of this machine in any case, or one of its numeric addresses: all
/// those spellings have one form. Any other host stays in the form, in lower
/// case.
pub proof fn law_file_host_is_folded(host: Seq<char>, path: Seq<char>, known: SchemeKnowledge)
    requires
        plain_host(host) || host.len() == 0,
        plain_path(path),
    ensures
        ({
            let low = scan::lowered(host);
            let here = low == "localhost"@ || low == "localhost.localdomain"@
                || url::names_loopback(low);
            let form = url::normal_form(file_url(host, path), known);
            &&& host.len() == 0 || here ==> form == Some("file://"@ + ("/"@ + path))
            &&& host.len() > 0 && !here ==> form == Some("file://"@ + low + ("/"@ + path))
        }),
{
    reveal_strlit("");
    let low = scan::lowered(host);
    lemma_file_parts(host, path);
    assert forall|i: int| 0 <= i < host.len() implies #[trigger] host[i] != '@' && host[i] != ':'
        && host[i] != '%' by {
        assert(is_host_char(host[i]));
    }
    spelling::law_unescaped_text_spells_itself(host);
    if host.len() > 0 {
        spelling::lemma_plain_host(host);
        spelling::lemma_lower_host(host);
        assert forall|i: int| 0 <= i < low.len() implies #[trigger] low[i] != '%' by {
            assert(is_host_char(low[i]));
        }
        spelling::lemma_replaced_none(low, '%', "%25"@);
        assert(low.len() == host.len());
        assert(low != ""@);
    } else {
        spelling::lemma_last_none(host, '@');
        spelling::lemma_last_none(host, ':');
        assert(low =~= ""@);
    }
    assert("file://"@ + Seq::<char>::empty() + ("/"@ + path) =~= "file://"@ + ("/"@ + path));
}

/// Whatever its host, a file URL means the path behind the host to the file
/// system.
pub proof fn law_file_url_means_its_path(host: Seq<char>, path: Seq<char>)
    requires
        plain_host(host) || host.len() == 0,
        plain_path(path),
    ensures
        url::fs_shape(file_url(host, path)) == EgressFsShape::Absolute("/"@ + path),
{
    reveal_strlit("/");
    lemma_file_parts(host, path);
    let p = "/"@ + path;
    assert forall|i: int| 0 <= i < p.len() implies #[trigger] p[i] != '%' by {
        if i > 0 {
            assert(p[i] == path[i - 1]);
        }
    }
    spelling::law_unescaped_text_spells_itself(p);
}

} // verus!
