//! Commit object ids, held as their 40-digit lower-case hexadecimal form.
use vstd::prelude::*;
use vstd::std_specs::cmp::PartialEqSpecImpl;
use crate::text::{ascii_lower, ascii_lower_char, chars_to_string, str_chars};

verus! {

/// Whether `c` is a hexadecimal digit (either case).
pub open spec fn is_hex_digit(c: char) -> bool {
    ('0' <= c && c <= '9') || ('a' <= c && c <= 'f') || ('A' <= c && c <= 'F')
}

/// Whether `c` is a lower-case hexadecimal digit.
pub open spec fn is_lower_hex_digit(c: char) -> bool {
    ('0' <= c && c <= '9') || ('a' <= c && c <= 'f')
}

/// Well-formed object id text: exactly 40 lower-case hexadecimal digits.
pub open spec fn is_oid_hex(s: Seq<char>) -> bool {
    s.len() == 40 && forall|i: int| 0 <= i < 40 ==> is_lower_hex_digit(#[trigger] s[i])
}

/// The object id denoted by a hexadecimal prefix: between 1 and 40 hex
/// digits in either case; missing trailing digits are zero.
pub open spec fn parse_oid_hex(s: Seq<char>) -> Option<Seq<char>> {
    if 1 <= s.len() <= 40 && (forall|i: int| 0 <= i < s.len() ==> is_hex_digit(#[trigger] s[i])) {
        Some(Seq::new(40, |i: int| if i < s.len() { ascii_lower(s[i]) } else { '0' }))
    } else {
        None
    }
}

/// A commit object id.
#[derive(Debug)]
pub struct Oid {
    hex: String,
}

impl View for Oid {
    type V = Seq<char>;

    closed spec fn view(&self) -> Seq<char> {
        self.hex@
    }
}

fn is_hex_digit_char(c: char) -> (b: bool)
    ensures
        b == is_hex_digit(c),
{
    ('0' <= c && c <= '9') || ('a' <= c && c <= 'f') || ('A' <= c && c <= 'F')
}

impl Oid {
    #[verifier::type_invariant]
    spec fn inv(self) -> bool {
        is_oid_hex(self.hex@)
    }

    /// Parses a hexadecimal object id (1 to 40 digits, zero-padded).
    pub fn from_hex(s: &str) -> (r: Option<Oid>)
        ensures
            parse_oid_hex(s@) is None <==> r is None,
            r matches Some(o) ==> parse_oid_hex(s@) == Some(o@),
    {
        let v = str_chars(s);
        let n = v.len();
        if n == 0 || n > 40 {
            return None;
        }
        let mut out: Vec<char> = Vec::new();
        let mut i: usize = 0;
        while i < 40
            invariant
                n == v@.len(),
                1 <= n <= 40,
                v@ == s@,
                i <= 40,
                out@.len() == i,
                forall|j: int| 0 <= j < i && j < n ==> is_hex_digit(#[trigger] v@[j]),
                forall|j: int|
                    0 <= j < i ==> #[trigger] out@[j] == (if j < n { ascii_lower(v@[j]) } else {
                        '0'
                    }),
            decreases 40 - i,
        {
            if i < n {
                let c = v[i];
                if !is_hex_digit_char(c) {
                    return None;
                }
                out.push(ascii_lower_char(c));
            } else {
                out.push('0');
            }
            i = i + 1;
        }
        let hex = chars_to_string(out.as_slice());
        let ghost spec_v = Seq::new(40, |k: int| if k < s@.len() { ascii_lower(s@[k]) } else { '0' });
        assert(out@ =~= spec_v);
        assert forall|k: int| 0 <= k < 40 implies is_lower_hex_digit(#[trigger] out@[k]) by {
            if k < n {
                assert(is_hex_digit(v@[k]));
            }
        }
        Some(Oid { hex })
    }

    /// The 40-digit lower-case hexadecimal text of this id.
    pub fn to_hex(&self) -> (r: String)
        ensures
            r@ == self@,
            is_oid_hex(r@),
    {
        proof {
            use_type_invariant(self);
        }
        self.hex.clone()
    }

    /// The first seven hexadecimal digits, as shown in abbreviated ids.
    pub fn short_hex(&self) -> (r: String)
        ensures
            r@ == self@.take(7),
    {
        proof {
            use_type_invariant(self);
        }
        let v = str_chars(self.hex.as_str());
        let mut out: Vec<char> = Vec::new();
        let mut i: usize = 0;
        while i < 7
            invariant
                v@ == self@,
                v@.len() == 40,
                i <= 7,
                out@ == v@.take(i as int),
            decreases 7 - i,
        {
            out.push(v[i]);
            i = i + 1;
            assert(out@ =~= v@.take(i as int));
        }
        chars_to_string(out.as_slice())
    }

    /// Whether two ids denote the same commit.
    pub fn same(&self, other: &Oid) -> (b: bool)
        ensures
            b == (self@ == other@),
    {
        self.hex == other.hex
    }

    /// The text of every well-formed id has 40 lower-case hex digits.
    pub fn is_well_formed(&self) -> (b: bool)
        ensures
            b,
            is_oid_hex(self@),
    {
        proof {
            use_type_invariant(self);
        }
        true
    }
}

impl Clone for Oid {
    fn clone(&self) -> (r: Self)
        ensures
            r == *self,
    {
        proof {
            use_type_invariant(self);
        }
        Oid { hex: self.hex.clone() }
    }
}

impl PartialEq for Oid {
    fn eq(&self, other: &Self) -> (r: bool) {
        self.hex == other.hex
    }
}

impl PartialEqSpecImpl for Oid {
    open spec fn obeys_eq_spec() -> bool {
        true
    }

    open spec fn eq_spec(&self, other: &Oid) -> bool {
        self@ == other@
    }
}

impl Eq for Oid {
}

} // verus!
