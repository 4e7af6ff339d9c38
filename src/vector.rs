use crate::error::NlpError;
use vstd::prelude::*;

verus! {

/// The element texts separated by commas.
pub open spec fn joined(parts: Seq<Seq<char>>) -> Seq<char>
    decreases parts.len(),
{
    if parts.len() == 0 {
        seq![]
    } else if parts.len() == 1 {
        parts[0]
    } else {
        joined(parts.drop_last()) + seq![','] + parts.last()
    }
}

/// The text of a vector whose elements have the texts `parts`.
pub open spec fn vector_text(parts: Seq<Seq<char>>) -> Seq<char> {
    seq!['['] + joined(parts) + seq![']']
}

/// The views of a sequence of strings.
pub open spec fn texts_of(texts: Seq<String>) -> Seq<Seq<char>> {
    texts.map_values(|t: String| t@)
}

/// Whether the 32-bit float with these bits is finite (its exponent field
/// is not all ones).
pub open spec fn is_finite_bits(bits: u32) -> bool {
    bits & 0x7f80_0000 != 0x7f80_0000
}

/// Frames the texts of a vector's elements: `[`, the texts separated by
/// commas, `]`.
pub fn serialize_vector(texts: &Vec<String>) -> (r: String)
    ensures
        r@ == vector_text(texts_of(texts@)),
{
    proof {
        reveal_strlit("[");
    }
    let ghost parts = texts_of(texts@);
    let mut s = String::new();
    s.append("[");
    let n = texts.len();
    let mut i: usize = 0;
    while i < n
        invariant
            n == texts@.len(),
            parts == texts_of(texts@),
            i <= n,
            s@ == seq!['['] + joined(parts.take(i as int)),
        decreases n - i,
    {
        let ghost before = s@;
        if i > 0 {
            s.append(",");
        }
        s.append(texts[i].as_str());
        proof {
            reveal_strlit(",");
            let next = parts.take(i + 1);
            assert(next.drop_last() =~= parts.take(i as int));
            assert(next.last() == texts@[i as int]@);
            if i == 0 {
                assert(parts.take(0).len() == 0);
                assert(before =~= seq!['[']);
                assert(s@ =~= seq!['['] + joined(next));
            } else {
                assert(joined(next) == joined(parts.take(i as int)) + seq![','] + next.last());
                assert(s@ =~= seq!['['] + joined(next));
            }
        }
        i = i + 1;
    }
    s.append("]");
    proof {
        reveal_strlit("]");
    }
    assert(parts.take(n as int) =~= parts);
    s
}

/// Rejects a vector, given by the bits of its 32-bit floats, that holds a
/// value with no text form (an infinity or a NaN).
pub fn check_finite(bits: &Vec<u32>) -> (r: Result<(), NlpError>)
    ensures
        r is Ok <==> forall|i: int| 0 <= i < bits@.len() ==> is_finite_bits(#[trigger] bits@[i]),
        r is Err ==> r->Err_0 == NlpError::SerializationError,
{
    let n = bits.len();
    let mut i: usize = 0;
    while i < n
        invariant
            n == bits@.len(),
            i <= n,
            forall|k: int| 0 <= k < i ==> is_finite_bits(#[trigger] bits@[k]),
        decreases n - i,
    {
        if bits[i] & 0x7f80_0000 == 0x7f80_0000 {
            return Err(NlpError::SerializationError);
        }
        i = i + 1;
    }
    Ok(())
}

} // verus!
