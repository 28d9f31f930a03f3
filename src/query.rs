use vstd::prelude::*;
use vstd::multiset::Multiset;
use vstd::string::StringExecFns;

verus! {

/// Lexicographic order of strings by character code, a proper prefix first.
pub open spec fn str_lt(a: Seq<char>, b: Seq<char>) -> bool
    decreases a.len(),
{
    if a.len() == 0 {
        b.len() > 0
    } else if b.len() == 0 {
        false
    } else if a[0] < b[0] {
        true
    } else if a[0] > b[0] {
        false
    } else {
        str_lt(a.drop_first(), b.drop_first())
    }
}

/// Order of query parameters: by name, then by value.
pub open spec fn pair_le(p: (&str, String), q: (&str, String)) -> bool {
    str_lt(p.0@, q.0@) || (p.0@ == q.0@ && !str_lt(q.1@, p.1@))
}

pub open spec fn pairs_sorted(s: Seq<(&str, String)>) -> bool {
    forall|i: int, j: int| 0 <= i < j < s.len() ==> pair_le(#[trigger] s[i], #[trigger] s[j])
}

pub open spec fn kv_text(p: (&str, String)) -> Seq<char> {
    p.0@ + seq!['='] + p.1@
}

/// `name=value` pairs joined by `&`, in the order given.
pub open spec fn query_text(s: Seq<(&str, String)>) -> Seq<char>
    decreases s.len(),
{
    if s.len() == 0 {
        seq![]
    } else if s.len() == 1 {
        kv_text(s[0])
    } else {
        query_text(s.drop_last()) + seq!['&'] + kv_text(s.last())
    }
}

proof fn lemma_str_lt_facts(a: Seq<char>, b: Seq<char>, c: Seq<char>)
    ensures
        !str_lt(a, a),
        str_lt(a, b) ==> !str_lt(b, a),
        !str_lt(a, b) && !str_lt(b, a) ==> a == b,
        str_lt(a, b) && str_lt(b, c) ==> str_lt(a, c),
    decreases a.len(),
{
    if a.len() == 0 {
        if b.len() == 0 {
            assert(a =~= b);
        }
    } else {
        let a1 = a.drop_first();
        let b1 = if b.len() > 0 {
            b.drop_first()
        } else {
            a1
        };
        let c1 = if c.len() > 0 {
            c.drop_first()
        } else {
            a1
        };
        lemma_str_lt_facts(a1, b1, c1);
        lemma_str_lt_facts(a1, a1, a1);
        if b.len() > 0 && !str_lt(a, b) && !str_lt(b, a) {
            assert(a[0] == b[0]);
            assert(a1 == b1);
            assert forall|i: int| 0 <= i < a.len() implies a[i] == b[i] by {
                if i > 0 {
                    assert(a[i] == a1[i - 1]);
                    assert(b[i] == b1[i - 1]);
                }
            }
            assert(a =~= b);
        }
    }
}

/// Compares two strings in the order of `str_lt`.
fn str_less(a: &str, b: &str) -> (r: bool)
    ensures
        r == str_lt(a@, b@),
{
    let na = a.unicode_len();
    let nb = b.unicode_len();
    let mut i: usize = 0;
    proof {
        assert(a@.skip(0) =~= a@);
        assert(b@.skip(0) =~= b@);
    }
    while i < na && i < nb
        invariant
            na == a@.len(),
            nb == b@.len(),
            i <= na,
            i <= nb,
            str_lt(a@, b@) == str_lt(a@.skip(i as int), b@.skip(i as int)),
        decreases na - i,
    {
        let ca = a.get_char(i);
        let cb = b.get_char(i);
        proof {
            assert(a@.skip(i as int)[0] == ca);
            assert(b@.skip(i as int)[0] == cb);
            assert(a@.skip(i as int).drop_first() == a@.skip(i + 1));
            assert(b@.skip(i as int).drop_first() == b@.skip(i + 1));
        }
        if ca < cb {
            return true;
        }
        if ca > cb {
            return false;
        }
        i = i + 1;
    }
    proof {
        assert(a@.skip(i as int).len() == na - i);
        assert(b@.skip(i as int).len() == nb - i);
    }
    i < nb
}

fn pair_less_eq(p: &(&str, String), q: &(&str, String)) -> (r: bool)
    ensures
        r == pair_le(*p, *q),
{
    if str_less(p.0, q.0) {
        return true;
    }
    if str_less(q.0, p.0) {
        return false;
    }
    proof {
        lemma_str_lt_facts(p.0@, q.0@, q.0@);
    }
    !str_less(q.1.as_str(), p.1.as_str())
}

proof fn lemma_pair_le_facts(p: (&str, String), q: (&str, String), s: (&str, String))
    ensures
        pair_le(p, p),
        !pair_le(p, q) ==> pair_le(q, p),
        pair_le(p, q) && pair_le(q, s) ==> pair_le(p, s),
{
    lemma_str_lt_facts(p.0@, q.0@, s.0@);
    lemma_str_lt_facts(p.1@, q.1@, s.1@);
    lemma_str_lt_facts(q.0@, p.0@, s.0@);
    lemma_str_lt_facts(q.1@, p.1@, s.1@);
    lemma_str_lt_facts(s.1@, q.1@, p.1@);
    lemma_str_lt_facts(p.0@, s.0@, q.0@);
    lemma_str_lt_facts(q.0@, s.0@, p.0@);
    lemma_str_lt_facts(s.0@, p.0@, q.0@);
    lemma_str_lt_facts(p.1@, s.1@, q.1@);
    lemma_str_lt_facts(s.1@, p.1@, q.1@);
}

fn min_index(v: &Vec<(&str, String)>) -> (m: usize)
    requires
        v@.len() > 0,
    ensures
        m < v@.len(),
        forall|k: int| 0 <= k < v@.len() ==> pair_le(v@[m as int], #[trigger] v@[k]),
{
    let mut m: usize = 0;
    let mut j: usize = 1;
    proof {
        lemma_pair_le_facts(v@[0], v@[0], v@[0]);
    }
    while j < v.len()
        invariant
            1 <= j <= v@.len(),
            m < j,
            forall|k: int| 0 <= k < j ==> pair_le(v@[m as int], #[trigger] v@[k]),
        decreases v@.len() - j,
    {
        if !pair_less_eq(&v[m], &v[j]) {
            proof {
                assert forall|k: int| 0 <= k < j implies pair_le(v@[j as int], #[trigger] v@[k]) by {
                    lemma_pair_le_facts(v@[j as int], v@[m as int], v@[k]);
                    lemma_pair_le_facts(v@[m as int], v@[j as int], v@[k]);
                }
                lemma_pair_le_facts(v@[j as int], v@[j as int], v@[j as int]);
            }
            m = j;
        }
        j = j + 1;
    }
    m
}

/// The query parameters sorted by name and value, written as `name=value` pairs joined
/// by `&`: the canonical text that a request signature covers.
pub fn concatenate_query(query_data: Vec<(&str, String)>) -> (r: String)
    ensures
        exists|p: Seq<(&str, String)>|
            p.to_multiset() == query_data@.to_multiset() && pairs_sorted(p) && r@ == query_text(
                p,
            ),
{
    broadcast use vstd::seq_lib::group_to_multiset_ensures;

    let ghost orig = query_data@;
    let mut rest = query_data;
    let ghost mut taken: Seq<(&str, String)> = seq![];
    let mut out = String::new();
    proof {
        reveal_strlit("");
        assert(taken.to_multiset() =~= Multiset::empty());
    }
    while rest.len() > 0
        invariant
            rest@.to_multiset().add(taken.to_multiset()) == orig.to_multiset(),
            pairs_sorted(taken),
            forall|i: int, k: int|
                0 <= i < taken.len() && 0 <= k < rest@.len() ==> pair_le(
                    #[trigger] taken[i],
                    #[trigger] rest@[k],
                ),
            out@ == query_text(taken),
        decreases rest@.len(),
    {
        let m = min_index(&rest);
        let ghost before = rest@;
        let item = rest.remove(m);
        proof {
            before.to_multiset_ensures();
            taken.to_multiset_ensures();
            assert(before.remove(m as int).to_multiset() =~= before.to_multiset().remove(
                before[m as int],
            ));
            assert(taken.push(item).to_multiset() =~= taken.to_multiset().insert(item));
            assert(rest@.to_multiset().add(taken.push(item).to_multiset()) =~= orig.to_multiset());
            assert forall|k: int| 0 <= k < rest@.len() implies pair_le(item, #[trigger] rest@[k]) by {
                if k < m {
                    assert(rest@[k] == before[k]);
                } else {
                    assert(rest@[k] == before[k + 1]);
                }
            }
            assert forall|i: int, k: int|
                0 <= i < taken.len() && 0 <= k < rest@.len() implies pair_le(
                    #[trigger] taken[i],
                    #[trigger] rest@[k],
                ) by {
                if k < m {
                    assert(rest@[k] == before[k]);
                } else {
                    assert(rest@[k] == before[k + 1]);
                }
            }
        }
        let ghost next = taken.push(item);
        proof {
            assert forall|i: int, j: int| 0 <= i < j < next.len() implies pair_le(
                #[trigger] next[i],
                #[trigger] next[j],
            ) by {
                if j == next.len() - 1 {
                    assert(next[j] == before[m as int]);
                    assert(next[i] == taken[i]);
                }
            }
            assert(next.drop_last() == taken);
            reveal_strlit("=");
            reveal_strlit("&");
        }
        if out.as_str().is_empty() {
            proof {
                if taken.len() > 0 {
                    assert(kv_text(taken.last()).len() > 0);
                    lemma_query_text_nonempty(taken);
                }
            }
            out.append(item.0);
            out.append("=");
            out.append(item.1.as_str());
        } else {
            proof {
                if taken.len() == 0 {
                    assert(out@.len() == 0);
                }
            }
            out.append("&");
            out.append(item.0);
            out.append("=");
            out.append(item.1.as_str());
        }
        proof {
            taken = next;
        }
    }
    proof {
        assert(rest@.to_multiset() =~= Multiset::empty());
        assert(taken.to_multiset() =~= orig.to_multiset());
    }
    out
}

proof fn lemma_query_text_nonempty(s: Seq<(&str, String)>)
    requires
        s.len() > 0,
    ensures
        query_text(s).len() > 0,
    decreases s.len(),
{
    if s.len() > 1 {
        lemma_query_text_nonempty(s.drop_last());
    }
}


/// HMAC-SHA256 of a message under a key, both taken as UTF-8 text.
pub uninterp spec fn hmac_sha256_of(key: Seq<char>, message: Seq<char>) -> Seq<u8>;

/// Digit `n` (below 64) of the standard base64 alphabet.
pub open spec fn base64_digit(n: int) -> char {
    if n < 26 {
        (65 + n) as u8 as char
    } else if n < 52 {
        (71 + n) as u8 as char
    } else if n < 62 {
        (n - 4) as u8 as char
    } else if n == 62 {
        '+'
    } else {
        '/'
    }
}

/// Standard base64 text of some bytes: each three bytes as four digits, a short last group
/// padded with `=`.
pub open spec fn base64_of(b: Seq<u8>) -> Seq<char>
    decreases b.len(),
{
    let x = if b.len() > 0 {
        b[0] as int
    } else {
        0
    };
    let y = if b.len() > 1 {
        b[1] as int
    } else {
        0
    };
    let z = if b.len() > 2 {
        b[2] as int
    } else {
        0
    };
    if b.len() == 0 {
        seq![]
    } else if b.len() == 1 {
        seq![base64_digit(x / 4), base64_digit((x % 4) * 16), '=', '=']
    } else if b.len() == 2 {
        seq![base64_digit(x / 4), base64_digit((x % 4) * 16 + y / 16), base64_digit((y % 16) * 4), '=']
    } else {
        seq![
            base64_digit(x / 4),
            base64_digit((x % 4) * 16 + y / 16),
            base64_digit((y % 16) * 4 + z / 64),
            base64_digit(z % 64),
        ] + base64_of(b.skip(3))
    }
}

/// Relies on hmac's `Hmac<Sha256>`: `new_from_slice` accepts a key of any length, and
/// `finalize` yields the 32-byte tag of the bytes passed to `update`.
#[verifier::external_body]
fn hmac_sha256(key: &str, message: &str) -> (r: Vec<u8>)
    ensures
        r@ == hmac_sha256_of(key@, message@),
        r@.len() == 32,
{
    let mut mac =
        <hmac::Hmac<sha2::Sha256> as hmac::NewMac>::new_from_slice(key.as_bytes()).unwrap();
    hmac::Mac::update(&mut mac, message.as_bytes());
    hmac::Mac::finalize(mac).into_bytes().to_vec()
}

/// Relies on `base64::encode`: the standard alphabet with padding.
#[verifier::external_body]
fn base64_encode(bytes: &Vec<u8>) -> (r: String)
    ensures
        r@ == base64_of(bytes@),
{
    base64::encode(bytes)
}

pub open spec fn hex_digit(n: u8) -> char {
    if n < 10 {
        ((n + 48) as u8) as char
    } else {
        ((n + 87) as u8) as char
    }
}

/// Lowercase hexadecimal text of some bytes, two digits per byte, high nibble first.
pub open spec fn hex_text(b: Seq<u8>) -> Seq<char>
    decreases b.len(),
{
    if b.len() == 0 {
        seq![]
    } else {
        hex_text(b.drop_last()) + seq![hex_digit(b.last() / 16), hex_digit(b.last() % 16)]
    }
}

/// Relies on `hex::encode`: each byte as two lowercase hexadecimal digits, high nibble first.
#[verifier::external_body]
fn hex_encode(bytes: &Vec<u8>) -> (r: String)
    ensures
        r@ == hex_text(bytes@),
{
    hex::encode(bytes)
}

/// Lowercase hexadecimal HMAC-SHA256 tag of a message.
pub fn hmac_hex(key: &str, message: &str) -> (r: String)
    ensures
        r@ == hex_text(hmac_sha256_of(key@, message@)),
{
    hex_encode(&hmac_sha256(key, message))
}

/// Signature of a request's query parameters: the hexadecimal HMAC-SHA256 tag of their
/// canonical text.
pub fn get_signature(query_data: Vec<(&str, String)>, private_key: &str) -> (r: String)
    ensures
        exists|p: Seq<(&str, String)>|
            p.to_multiset() == query_data@.to_multiset() && pairs_sorted(p) && r@ == hex_text(
                hmac_sha256_of(private_key@, query_text(p)),
            ),
{
    let text = concatenate_query(query_data);
    hmac_hex(private_key, text.as_str())
}

pub open spec fn body_text(body: Option<&str>) -> Seq<char> {
    match body {
        Some(b) => b@,
        None => seq![],
    }
}

/// Okex request signature: base64 HMAC-SHA256 of timestamp, method, endpoint and body.
pub fn get_okex_signature(
    secret_key: &str,
    timestamp: &str,
    method: &str,
    endpoint: &str,
    body: Option<&str>,
) -> (r: String)
    ensures
        r@ == base64_of(
            hmac_sha256_of(secret_key@, timestamp@ + method@ + endpoint@ + body_text(body)),
        ),
{
    let mut text = String::from_str(timestamp);
    text.append(method);
    text.append(endpoint);
    match body {
        Some(b) => text.append(b),
        None => {},
    }
    proof {
        assert(text@ =~= timestamp@ + method@ + endpoint@ + body_text(body));
    }
    base64_encode(&hmac_sha256(secret_key, text.as_str()))
}

pub open spec fn ascii_upper(c: char) -> char {
    if 'a' <= c <= 'z' {
        ((c as u32 - 32) as u8) as char
    } else {
        c
    }
}

/// Relies on `str::to_ascii_uppercase`: ASCII letters `a` to `z` become `A` to `Z`, every
/// other character is kept.
#[verifier::external_body]
fn to_ascii_uppercase(s: &str) -> (r: String)
    ensures
        r@ == s@.map_values(|c: char| ascii_upper(c)),
{
    s.to_ascii_uppercase()
}

/// FTX request signature: hexadecimal HMAC-SHA256 of timestamp, upper-case method,
/// `/api` and endpoint, and body.
pub fn get_ftx_signature(
    secret_key: &str,
    timestamp: &str,
    method: &str,
    endpoint: &str,
    body: Option<&str>,
) -> (r: String)
    ensures
        r@ == hex_text(
            hmac_sha256_of(
                secret_key@,
                timestamp@ + method@.map_values(|c: char| ascii_upper(c)) + "/api"@ + endpoint@
                    + body_text(body),
            ),
        ),
{
    let upper = to_ascii_uppercase(method);
    let mut text = String::from_str(timestamp);
    text.append(upper.as_str());
    text.append("/api");
    text.append(endpoint);
    match body {
        Some(b) => text.append(b),
        None => {},
    }
    proof {
        assert(text@ =~= timestamp@ + method@.map_values(|c: char| ascii_upper(c)) + "/api"@
            + endpoint@ + body_text(body));
    }
    hmac_hex(secret_key, text.as_str())
}

} // verus!
