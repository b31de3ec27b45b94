use vstd::prelude::*;

use vstd::string::StrSliceExecFns;

verus! {

/// Character-for-character equality of two string slices.
pub fn str_eq(a: &str, b: &str) -> (r: bool)
    ensures
        r == (a@ == b@),
{
    let owned_a: String = a.to_owned();
    let owned_b: String = b.to_owned();
    owned_a == owned_b
}

/// Equality of two equally structured secret strings that scans both in
/// full instead of stopping at the first difference, so the time taken
/// does not tell an observer how long a matching prefix was.  Only the
/// lengths, which differ between unrelated records anyway, shape the
/// running time.
pub fn constant_time_str_eq(a: &str, b: &str) -> (r: bool)
    ensures
        r == (a@ == b@),
{
    let n = a.unicode_len();
    let m = b.unicode_len();
    if n != m {
        return false;
    }
    let mut diff: u32 = 0;
    let mut i: usize = 0;
    while i < n
        invariant
            i <= n,
            n == a@.len(),
            n == b@.len(),
            (diff == 0) == (forall|j: int| 0 <= j < i ==> a@[j] == b@[j]),
        decreases n - i,
    {
        let xa = a.get_char(i) as u32;
        let xb = b.get_char(i) as u32;
        let ghost diff_before = diff;
        diff = diff | (xa ^ xb);
        proof {
            if xa == xb {
                vstd::utf8::char_u32_cast(a@[i as int], xa);
                vstd::utf8::char_u32_cast(b@[i as int], xb);
                assert(a@[i as int] == b@[i as int]);
                assert(diff == diff_before) by (bit_vector)
                    requires
                        xa == xb,
                        diff == diff_before | (xa ^ xb),
                ;
            } else {
                assert(a@[i as int] != b@[i as int]);
                assert(diff != 0) by (bit_vector)
                    requires
                        xa != xb,
                        diff == diff_before | (xa ^ xb),
                ;
            }
        }
        i = i + 1;
    }
    if diff == 0 {
        proof {
            assert(a@ =~= b@);
        }
        true
    } else {
        false
    }
}

} // verus!
