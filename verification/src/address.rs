//! Move account addresses and module identifiers.
use vstd::prelude::*;

use crate::text::{hex2, hex_digit_of, push_char, push_str};

verus! {

/// A 32-byte Move account address.
#[derive(Hash, Clone, Copy, Debug)]
pub struct Address(pub [u8; 32]);

impl View for Address {
    type V = Seq<u8>;

    open spec fn view(&self) -> Seq<u8> {
        self.0@
    }
}

impl Address {
    /// Builds an address from its 32 raw bytes.
    pub fn from_bytes(bytes: [u8; 32]) -> (r: Address)
        ensures
            r@ == bytes@,
    {
        Address(bytes)
    }
}

/// Identifies a Move module by the address that publishes it and its name.
#[derive(Hash, Debug)]
pub struct ModuleId {
    pub address: Address,
    pub module_name: String,
}

/// The mathematical value of a module identifier.
pub struct ModuleIdView {
    pub address: Seq<u8>,
    pub module_name: Seq<char>,
}

impl View for ModuleId {
    type V = ModuleIdView;

    open spec fn view(&self) -> ModuleIdView {
        ModuleIdView { address: self.address@, module_name: self.module_name@ }
    }
}

} // verus!

verus! {

impl ModuleId {
    /// A copy of this identifier.
    pub fn duplicate(&self) -> (r: ModuleId)
        ensures
            r@ == self@,
    {
        ModuleId { address: Address(self.address.0), module_name: self.module_name.clone() }
    }
}

} // verus!

verus! {

/// The index of the last non-zero byte of `b`, or -1 when every byte is zero.
pub open spec fn last_nonzero(b: Seq<u8>) -> int
    decreases b.len(),
{
    if b.len() == 0 {
        -1
    } else if b.last() != 0 {
        b.len() - 1
    } else {
        last_nonzero(b.drop_last())
    }
}

/// Each byte of `s` written as `0x` and two lowercase hexadecimal digits.
pub open spec fn prefixed_hex(s: Seq<u8>) -> Seq<char>
    decreases s.len(),
{
    if s.len() == 0 {
        Seq::empty()
    } else {
        prefixed_hex(s.drop_last()) + seq!['0', 'x'] + hex2(s.last())
    }
}

/// The text of an address: the bytes from its last non-zero byte to its end, each as `0x`
/// and two hexadecimal digits, or `0x0` when every byte is zero.
pub open spec fn address_text(b: Seq<u8>) -> Seq<char> {
    if last_nonzero(b) >= 0 {
        prefixed_hex(b.subrange(last_nonzero(b), b.len() as int))
    } else {
        seq!['0', 'x', '0']
    }
}

proof fn lemma_last_nonzero(b: Seq<u8>, k: int)
    requires
        -1 <= k < b.len(),
        k >= 0 ==> b[k] != 0,
        forall|j: int| k < j < b.len() ==> b[j] == 0,
    ensures
        last_nonzero(b) == k,
    decreases b.len(),
{
    if b.len() > 0 && k < b.len() - 1 {
        assert(b.last() == 0);
        lemma_last_nonzero(b.drop_last(), k);
    }
}

/// Appends `0x` and the two hexadecimal digits of `b` to `s`.
fn push_prefixed_hex_byte(s: &mut String, b: u8)
    ensures
        final(s)@ == old(s)@ + seq!['0', 'x'] + hex2(b),
{
    push_char(s, '0');
    push_char(s, 'x');
    let hi = hex_digit_of(b / 16);
    push_char(s, hi);
    let lo = hex_digit_of(b % 16);
    push_char(s, lo);
    proof {
        assert(final(s)@ =~= old(s)@ + seq!['0', 'x'] + hex2(b));
    }
}

impl Address {
    /// The address as text (see `address_text`): `0x02` for the address whose bytes are all zero
    /// but the last, which is 2; `0x0` for the zero address.
    pub fn to_text(&self) -> (r: String)
        ensures
            r@ == address_text(self@),
    {
        let mut k: usize = 32;
        while k > 0 && self.0[k - 1] == 0
            invariant
                0 <= k <= 32,
                forall|j: int| k <= j < 32 ==> self.0@[j] == 0,
            decreases k,
        {
            k = k - 1;
        }
        let mut out = String::new();
        if k == 0 {
            proof {
                lemma_last_nonzero(self@, -1);
            }
            push_char(&mut out, '0');
            push_char(&mut out, 'x');
            push_char(&mut out, '0');
            proof {
                assert(out@ =~= seq!['0', 'x', '0']);
            }
            return out;
        }
        let start: usize = k - 1;
        proof {
            lemma_last_nonzero(self@, start as int);
        }
        let mut j: usize = start;
        while j < 32
            invariant
                start <= j <= 32,
                out@ == prefixed_hex(self@.subrange(start as int, j as int)),
            decreases 32 - j,
        {
            let b = self.0[j];
            proof {
                assert(self@.subrange(start as int, j + 1).drop_last() =~= self@.subrange(start as int, j as int));
            }
            push_prefixed_hex_byte(&mut out, b);
            j = j + 1;
        }
        out
    }
}

impl ModuleId {
    /// The identifier as text: the address text, `::`, then the module name.
    pub fn to_text(&self) -> (r: String)
        ensures
            r@ == address_text(self.address@) + seq![':', ':'] + self.module_name@,
    {
        let mut out = self.address.to_text();
        push_char(&mut out, ':');
        push_char(&mut out, ':');
        push_str(&mut out, self.module_name.as_str());
        proof {
            assert(out@ =~= address_text(self.address@) + seq![':', ':'] + self.module_name@);
        }
        out
    }
}

impl From<[u8; 32]> for Address {
    fn from(value: [u8; 32]) -> Address {
        Address(value)
    }
}

impl vstd::std_specs::convert::FromSpecImpl<[u8; 32]> for Address {
    open spec fn obeys_from_spec() -> bool {
        true
    }

    open spec fn from_spec(v: [u8; 32]) -> Address {
        Address(v)
    }
}

impl PartialEq for Address {
    fn eq(&self, other: &Address) -> (r: bool) {
        let mut i: usize = 0;
        while i < 32
            invariant
                0 <= i <= 32,
                forall|j: int| 0 <= j < i ==> self.0@[j] == other.0@[j],
            decreases 32 - i,
        {
            if self.0[i] != other.0[i] {
                return false;
            }
            i = i + 1;
        }
        proof {
            assert(self.0@ =~= other.0@);
        }
        true
    }
}

impl vstd::std_specs::cmp::PartialEqSpecImpl for Address {
    open spec fn obeys_eq_spec() -> bool {
        true
    }

    open spec fn eq_spec(&self, other: &Address) -> bool {
        self@ == other@
    }
}

impl Eq for Address {
}

impl PartialEq for ModuleId {
    fn eq(&self, other: &ModuleId) -> (r: bool) {
        self.address == other.address && self.module_name == other.module_name
    }
}

impl vstd::std_specs::cmp::PartialEqSpecImpl for ModuleId {
    open spec fn obeys_eq_spec() -> bool {
        true
    }

    open spec fn eq_spec(&self, other: &ModuleId) -> bool {
        self@ == other@
    }
}

impl Eq for ModuleId {
}

impl Clone for ModuleId {
    fn clone(&self) -> (r: ModuleId)
        ensures
            r@ == self@,
    {
        self.duplicate()
    }
}

impl Default for ModuleId {
    /// The identifier `0x0::default`, with the zero address.
    fn default() -> (r: ModuleId)
        ensures
            r.address@ == Seq::new(32, |i: int| 0u8),
            r.module_name@ == "default"@,
    {
        let name = String::from_str("default");
        let r = ModuleId { address: Address([0u8; 32]), module_name: name };
        proof {
            assert(r.address@ =~= Seq::new(32, |i: int| 0u8));
        }
        r
    }
}

} // verus!
