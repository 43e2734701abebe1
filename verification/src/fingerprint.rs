//! Device fingerprinting: a stable identity hash over the hardware
//! identifiers found on the host. Components are joined in their collection
//! order with `|`, hashed with SHA-256, and rendered as 64 lowercase hex
//! characters. The fingerprint is a pure function of the components, so it
//! is stable on an unchanged host and changes whenever any identifier does.

use vstd::prelude::*;
use vstd::utf8::encode_utf8;
use crate::errors::IdentityError;

verus! {

/// The SHA-256 digest of a byte sequence. Named rather than written out:
/// the algorithm itself lives in the outside crate.
pub uninterp spec fn sha256_digest(bytes: Seq<u8>) -> Seq<u8>;

/// Relies on sha2's Sha256 through `Digest::digest`: a 32-byte digest that
/// is a function of the input bytes alone.
#[verifier::external_body]
fn sha256(input: &str) -> (r: Vec<u8>)
    ensures
        r@ == sha256_digest(encode_utf8(input@)),
        r@.len() == 32,
{
    <sha2::Sha256 as sha2::Digest>::digest(input.as_bytes()).as_slice().to_vec()
}

/// The lowercase hex character for one value below sixteen.
pub open spec fn hex_digit(d: u8) -> char {
    if d == 0 {
        '0'
    } else if d == 1 {
        '1'
    } else if d == 2 {
        '2'
    } else if d == 3 {
        '3'
    } else if d == 4 {
        '4'
    } else if d == 5 {
        '5'
    } else if d == 6 {
        '6'
    } else if d == 7 {
        '7'
    } else if d == 8 {
        '8'
    } else if d == 9 {
        '9'
    } else if d == 10 {
        'a'
    } else if d == 11 {
        'b'
    } else if d == 12 {
        'c'
    } else if d == 13 {
        'd'
    } else if d == 14 {
        'e'
    } else {
        'f'
    }
}

/// The lowercase hex rendering of a byte sequence, two characters per byte.
pub open spec fn hex_of(bytes: Seq<u8>) -> Seq<char>
    decreases bytes.len(),
{
    if bytes.len() == 0 {
        Seq::empty()
    } else {
        seq![hex_digit(bytes[0] / 16), hex_digit(bytes[0] % 16)] + hex_of(bytes.drop_first())
    }
}

pub proof fn lemma_hex_of_len(bytes: Seq<u8>)
    ensures
        hex_of(bytes).len() == 2 * bytes.len(),
    decreases bytes.len(),
{
    if bytes.len() > 0 {
        lemma_hex_of_len(bytes.drop_first());
    }
}

proof fn lemma_hex_of_push(bytes: Seq<u8>, b: u8)
    ensures
        hex_of(bytes.push(b)) == hex_of(bytes) + seq![hex_digit(b / 16), hex_digit(b % 16)],
    decreases bytes.len(),
{
    if bytes.len() == 0 {
        assert(bytes.push(b)[0] == b);
        assert(bytes.push(b).drop_first() =~= Seq::<u8>::empty());
        assert(hex_of(Seq::<u8>::empty()) =~= Seq::<char>::empty());
        assert(hex_of(bytes.push(b)) =~= hex_of(bytes) + seq![hex_digit(b / 16), hex_digit(b % 16)]);
    } else {
        lemma_hex_of_push(bytes.drop_first(), b);
        assert(bytes.push(b).drop_first() =~= bytes.drop_first().push(b));
        assert(hex_of(bytes.push(b)) =~= hex_of(bytes) + seq![hex_digit(b / 16), hex_digit(b % 16)]);
    }
}

fn hex_digit_str(d: u8) -> (r: &'static str)
    requires
        d < 16,
    ensures
        r@ == seq![hex_digit(d)],
{
    if d == 0 {
        proof {
            reveal_strlit("0");
            assert("0"@ =~= seq![hex_digit(d)]);
        }
        "0"
    } else if d == 1 {
        proof {
            reveal_strlit("1");
            assert("1"@ =~= seq![hex_digit(d)]);
        }
        "1"
    } else if d == 2 {
        proof {
            reveal_strlit("2");
            assert("2"@ =~= seq![hex_digit(d)]);
        }
        "2"
    } else if d == 3 {
        proof {
            reveal_strlit("3");
            assert("3"@ =~= seq![hex_digit(d)]);
        }
        "3"
    } else if d == 4 {
        proof {
            reveal_strlit("4");
            assert("4"@ =~= seq![hex_digit(d)]);
        }
        "4"
    } else if d == 5 {
        proof {
            reveal_strlit("5");
            assert("5"@ =~= seq![hex_digit(d)]);
        }
        "5"
    } else if d == 6 {
        proof {
            reveal_strlit("6");
            assert("6"@ =~= seq![hex_digit(d)]);
        }
        "6"
    } else if d == 7 {
        proof {
            reveal_strlit("7");
            assert("7"@ =~= seq![hex_digit(d)]);
        }
        "7"
    } else if d == 8 {
        proof {
            reveal_strlit("8");
            assert("8"@ =~= seq![hex_digit(d)]);
        }
        "8"
    } else if d == 9 {
        proof {
            reveal_strlit("9");
            assert("9"@ =~= seq![hex_digit(d)]);
        }
        "9"
    } else if d == 10 {
        proof {
            reveal_strlit("a");
            assert("a"@ =~= seq![hex_digit(d)]);
        }
        "a"
    } else if d == 11 {
        proof {
            reveal_strlit("b");
            assert("b"@ =~= seq![hex_digit(d)]);
        }
        "b"
    } else if d == 12 {
        proof {
            reveal_strlit("c");
            assert("c"@ =~= seq![hex_digit(d)]);
        }
        "c"
    } else if d == 13 {
        proof {
            reveal_strlit("d");
            assert("d"@ =~= seq![hex_digit(d)]);
        }
        "d"
    } else if d == 14 {
        proof {
            reveal_strlit("e");
            assert("e"@ =~= seq![hex_digit(d)]);
        }
        "e"
    } else {
        proof {
            reveal_strlit("f");
            assert("f"@ =~= seq![hex_digit(d)]);
        }
        "f"
    }
}

/// Render bytes as lowercase hex.
pub fn bytes_to_hex(bytes: &Vec<u8>) -> (r: String)
    ensures
        r@ == hex_of(bytes@),
{
    let mut out = String::new();
    let mut i: usize = 0;
    proof {
        assert(bytes@.take(0) =~= Seq::<u8>::empty());
        assert(hex_of(bytes@.take(0)) =~= Seq::<char>::empty());
    }
    while i < bytes.len()
        invariant
            0 <= i <= bytes@.len(),
            out@ == hex_of(bytes@.take(i as int)),
        decreases bytes@.len() - i,
    {
        let b = bytes[i];
        out.append(hex_digit_str(b / 16));
        out.append(hex_digit_str(b % 16));
        proof {
            assert(bytes@.take(i as int).push(b) =~= bytes@.take(i + 1));
            lemma_hex_of_push(bytes@.take(i as int), b);
            assert(out@ =~= hex_of(bytes@.take(i + 1)));
        }
        i += 1;
    }
    proof {
        assert(bytes@.take(bytes@.len() as int) =~= bytes@);
    }
    out
}

/// The components joined with `|`, in their collection order. The hash is
/// order-sensitive, so each platform's probes enumerate in a fixed order.
pub open spec fn joined(components: Seq<Seq<char>>) -> Seq<char>
    decreases components.len(),
{
    if components.len() == 0 {
        Seq::empty()
    } else if components.len() == 1 {
        components[0]
    } else {
        components[0] + seq!['|'] + joined(components.drop_first())
    }
}

pub proof fn lemma_joined_push(components: Seq<Seq<char>>, c: Seq<char>)
    ensures
        joined(components.push(c)) == if components.len() == 0 {
            c
        } else {
            joined(components) + seq!['|'] + c
        },
    decreases components.len(),
{
    if components.len() == 0 {
        assert(joined(components.push(c)) =~= c);
    } else if components.len() == 1 {
        assert(components.push(c).drop_first() =~= seq![c]);
        assert(joined(seq![c]) == c);
        assert(components.push(c)[0] == components[0]);
        assert(joined(components.push(c)) =~= joined(components) + seq!['|'] + c);
    } else {
        lemma_joined_push(components.drop_first(), c);
        assert(components.push(c).drop_first() =~= components.drop_first().push(c));
        assert(joined(components.push(c)) =~= joined(components) + seq!['|'] + c);
    }
}

/// Join components with `|`.
pub fn join_components(components: &Vec<String>) -> (r: String)
    ensures
        r@ == joined(components.deep_view()),
{
    let mut out = String::new();
    let mut i: usize = 0;
    proof {
        assert(components.deep_view().take(0) =~= Seq::<Seq<char>>::empty());
    }
    while i < components.len()
        invariant
            0 <= i <= components@.len(),
            components.deep_view().len() == components@.len(),
            out@ == joined(components.deep_view().take(i as int)),
        decreases components@.len() - i,
    {
        if i > 0 {
            out.append("|");
        }
        out.append(components[i].as_str());
        proof {
            let dv = components.deep_view();
            assert(dv.take(i as int).push(dv[i as int]) =~= dv.take(i + 1));
            lemma_joined_push(dv.take(i as int), dv[i as int]);
            reveal_strlit("|");
            assert("|"@ =~= seq!['|']);
            assert(out@ =~= joined(dv.take(i + 1)));
        }
        i += 1;
    }
    proof {
        let dv = components.deep_view();
        assert(dv.take(dv.len() as int) =~= dv);
    }
    out
}

/// The fingerprint of a component list: lowercase hex of the SHA-256 digest
/// of the joined components' UTF-8 bytes.
pub open spec fn fingerprint_chars(components: Seq<Seq<char>>) -> Seq<char> {
    hex_of(sha256_digest(encode_utf8(joined(components))))
}

/// Determinism law: the fingerprint is a pure function of the collected
/// components, so two collections that found the same identifiers in the
/// same order produce the same fingerprint, however often it is recomputed.
pub proof fn lemma_fingerprint_deterministic(c1: Seq<Seq<char>>, c2: Seq<Seq<char>>)
    requires
        c1 == c2,
    ensures
        fingerprint_chars(c1) == fingerprint_chars(c2),
{
}

/// The fingerprint substituted when hardware probing fails entirely: the
/// hash of `fallback_` followed by the hostname. Nothing in its form marks
/// it as a fallback, so two hosts sharing a hostname would collide under it;
/// callers must treat it as a degraded identity.
pub open spec fn fallback_fingerprint_chars(hostname: Seq<char>) -> Seq<char> {
    hex_of(sha256_digest(encode_utf8("fallback_"@ + hostname)))
}

/// Compute the hostname-derived fallback fingerprint.
pub fn fallback_fingerprint(hostname: &str) -> (r: String)
    ensures
        r@ == fallback_fingerprint_chars(hostname@),
        r@.len() == 64,
{
    let mut s = String::from_str("fallback_");
    s.append(hostname);
    let digest = sha256(s.as_str());
    let fp = bytes_to_hex(&digest);
    proof {
        lemma_hex_of_len(digest@);
    }
    fp
}

/// Compute the device fingerprint from the collected hardware components.
/// Fails exactly when no component at all was collected; any non-empty
/// collection yields the 64-character hex digest.
pub fn generate_fingerprint(components: &Vec<String>) -> (r: Result<String, IdentityError>)
    ensures
        components@.len() == 0 ==> r == Err::<String, IdentityError>(IdentityError::NoIdentifiers),
        components@.len() > 0 ==> (r matches Ok(fp)
            && fp@ == fingerprint_chars(components.deep_view()) && fp@.len() == 64),
{
    if components.len() == 0 {
        return Err(IdentityError::NoIdentifiers);
    }
    let combined = join_components(components);
    let digest = sha256(combined.as_str());
    let fp = bytes_to_hex(&digest);
    proof {
        lemma_hex_of_len(digest@);
    }
    Ok(fp)
}

} // verus!
