use vstd::prelude::*;

verus! {

/// The reflected CRC-16/MODBUS generator polynomial.
pub const POLYNOMIAL: u16 = 0xA001;

/// One shift of the reflected register: shift right, and fold the polynomial in
/// whenever the bit shifted out was set.
pub open spec fn poly_step(x: u16) -> u16 {
    if x & 1 == 1 {
        (x >> 1) ^ 0xA001u16
    } else {
        x >> 1
    }
}

/// The register `x` after `n` shifts.
pub open spec fn shifts(x: u16, n: nat) -> u16
    decreases n,
{
    if n == 0 {
        x
    } else {
        poly_step(shifts(x, (n - 1) as nat))
    }
}

/// The 16-bit contribution of a table index: eight shifts of the index.
pub open spec fn table_entry(index: u8) -> u16 {
    shifts(index as u16, 8)
}

/// Entry of the high-byte table (the low half of the 16-bit contribution).
pub open spec fn table_hi(index: u8) -> u8 {
    (table_entry(index) & 0xFF) as u8
}

/// Entry of the low-byte table (the high half of the 16-bit contribution).
pub open spec fn table_lo(index: u8) -> u8 {
    (table_entry(index) >> 8) as u8
}

/// The register pair after consuming one byte.
pub open spec fn update(regs: (u8, u8), b: u8) -> (u8, u8) {
    let index = regs.0 ^ b;
    (regs.1 ^ table_hi(index), table_lo(index))
}

/// The register pair after consuming `data` from the initial pair (0xFF, 0xFF).
pub open spec fn registers_after(data: Seq<u8>) -> (u8, u8)
    decreases data.len(),
{
    if data.len() == 0 {
        (0xFFu8, 0xFFu8)
    } else {
        update(registers_after(data.drop_last()), data.last())
    }
}

/// The 16-bit value `(hi << 8) | lo` of a register pair.
pub open spec fn combine(regs: (u8, u8)) -> u16 {
    ((regs.0 as u16) << 8) | (regs.1 as u16)
}

/// The checksum of a byte sequence.
pub open spec fn checksum(data: Seq<u8>) -> u16 {
    combine(registers_after(data))
}

/// The standard bit-at-a-time CRC-16/MODBUS register: it starts at 0xFFFF, and
/// each byte is XORed into its low end and then shifted eight times.
pub open spec fn modbus_register(data: Seq<u8>) -> u16
    decreases data.len(),
{
    if data.len() == 0 {
        0xFFFFu16
    } else {
        shifts(modbus_register(data.drop_last()) ^ (data.last() as u16), 8)
    }
}

/// A 16-bit value with its two bytes exchanged.
pub open spec fn swap_bytes(x: u16) -> u16 {
    ((x & 0xFF) << 8) | (x >> 8)
}

proof fn lemma_step_xor(a: u16, b: u16)
    ensures
        poly_step(a ^ b) == poly_step(a) ^ poly_step(b),
{
    assert((if (a ^ b) & 1 == 1 {
        ((a ^ b) >> 1) ^ 0xA001u16
    } else {
        (a ^ b) >> 1
    }) == (if a & 1 == 1 {
        (a >> 1) ^ 0xA001u16
    } else {
        a >> 1
    }) ^ (if b & 1 == 1 {
        (b >> 1) ^ 0xA001u16
    } else {
        b >> 1
    })) by (bit_vector);
}

proof fn lemma_shifts_xor(a: u16, b: u16, n: nat)
    ensures
        shifts(a ^ b, n) == shifts(a, n) ^ shifts(b, n),
    decreases n,
{
    if n > 0 {
        lemma_shifts_xor(a, b, (n - 1) as nat);
        lemma_step_xor(shifts(a, (n - 1) as nat), shifts(b, (n - 1) as nat));
    }
}

proof fn lemma_shifts_high(h: u16, n: nat)
    requires
        n <= 8,
    ensures
        shifts(h << 8, n) == (h << 8) >> (n as u16),
    decreases n,
{
    if n == 0 {
        assert((h << 8) >> 0u16 == h << 8) by (bit_vector);
    } else {
        lemma_shifts_high(h, (n - 1) as nat);
        let m = (n - 1) as u16;
        let k = n as u16;
        assert(((h << 8) >> m) & 1 == 0 && ((h << 8) >> m) >> 1 == (h << 8) >> k) by (bit_vector)
            requires
                m < 8,
                k == m + 1,
        ;
    }
}

/// One byte of the bit-at-a-time algorithm is one table lookup.
proof fn lemma_table_step(crc: u16, b: u8)
    ensures
        shifts(crc ^ (b as u16), 8) == (crc >> 8) ^ table_entry(((crc & 0xFF) as u8) ^ b),
{
    let x = crc ^ (b as u16);
    let h = x >> 8;
    let l = x & 0xFF;
    assert(x == (h << 8) ^ l && h == crc >> 8 && l == ((((crc & 0xFF) as u8) ^ b) as u16))
        by (bit_vector)
        requires
            x == crc ^ (b as u16),
            h == x >> 8,
            l == x & 0xFF,
    ;
    lemma_shifts_xor(h << 8, l, 8);
    lemma_shifts_high(h, 8);
    assert((h << 8) >> 8u16 == h) by (bit_vector)
        requires
            h == x >> 8,
    ;
}

proof fn lemma_registers_match(data: Seq<u8>)
    ensures
        registers_after(data) == (
            (modbus_register(data) & 0xFF) as u8,
            (modbus_register(data) >> 8) as u8,
        ),
    decreases data.len(),
{
    if data.len() == 0 {
        assert((0xFFFFu16 & 0xFF) as u8 == 0xFFu8 && (0xFFFFu16 >> 8) as u8 == 0xFFu8)
            by (bit_vector);
    } else {
        let prev = data.drop_last();
        lemma_registers_match(prev);
        let crc = modbus_register(prev);
        let b = data.last();
        lemma_table_step(crc, b);
        let e = table_entry(((crc & 0xFF) as u8) ^ b);
        let n = (crc >> 8) ^ e;
        assert(((crc >> 8) as u8 ^ ((e & 0xFF) as u8)) == ((n & 0xFF) as u8) && ((e >> 8) as u8)
            == ((n >> 8) as u8)) by (bit_vector)
            requires
                n == (crc >> 8) ^ e,
        ;
    }
}

/// The table-driven checksum is the standard CRC-16/MODBUS register with its
/// bytes exchanged: the low byte of the register, sent first on the wire,
/// stands in the high half of the result.
pub proof fn checksum_is_swapped_modbus_register(data: Seq<u8>)
    ensures
        checksum(data) == swap_bytes(modbus_register(data)),
{
    lemma_registers_match(data);
    let c = modbus_register(data);
    assert(((((c & 0xFF) as u8) as u16) << 8) | (((c >> 8) as u8) as u16) == ((c & 0xFF) << 8) | (c
        >> 8)) by (bit_vector);
}

/// A calculation depends on its input alone: equal byte sequences give equal
/// register pairs and equal checksums, whatever an engine held before.
pub proof fn calculation_is_deterministic(a: Seq<u8>, b: Seq<u8>)
    requires
        a == b,
    ensures
        registers_after(a) == registers_after(b),
        checksum(a) == checksum(b),
{
}

/// The empty sequence leaves the initial pair in place: its checksum is 0xFFFF.
pub proof fn empty_input_checksum()
    ensures
        checksum(Seq::empty()) == 0xFFFFu16,
{
    assert(((0xFFu8 as u16) << 8) | (0xFFu8 as u16) == 0xFFFFu16) by (bit_vector);
}

fn shift_once(x: u16) -> (r: u16)
    ensures
        r == poly_step(x),
{
    if x & 1 == 1 {
        (x >> 1) ^ POLYNOMIAL
    } else {
        x >> 1
    }
}

fn table_entry_of(index: u8) -> (r: u16)
    ensures
        r == table_entry(index),
{
    let mut c: u16 = index as u16;
    let mut k: u8 = 0;
    while k < 8
        invariant
            k <= 8,
            c == shifts(index as u16, k as nat),
        decreases 8 - k,
    {
        c = shift_once(c);
        k = k + 1;
    }
    c
}

/// The two 256-entry tables of the table-driven CRC-16/MODBUS.
pub struct LookupTable {
    hi: Vec<u8>,
    lo: Vec<u8>,
}

impl View for LookupTable {
    type V = (Seq<u8>, Seq<u8>);

    /// The high-byte table and the low-byte table.
    closed spec fn view(&self) -> (Seq<u8>, Seq<u8>) {
        (self.hi@, self.lo@)
    }
}

impl LookupTable {
    #[verifier::type_invariant]
    spec fn inv(self) -> bool {
        &&& self.hi@.len() == 256
        &&& self.lo@.len() == 256
        &&& forall|i: int| 0 <= i < 256 ==> #[trigger] self.hi@[i] == table_hi(i as u8)
        &&& forall|i: int| 0 <= i < 256 ==> #[trigger] self.lo@[i] == table_lo(i as u8)
    }

    /// Builds both tables by shifting each index eight times through the polynomial.
    pub fn new() -> (t: Self)
        ensures
            t@.0 == Seq::new(256, |i: int| table_hi(i as u8)),
            t@.1 == Seq::new(256, |i: int| table_lo(i as u8)),
    {
        let mut hi: Vec<u8> = Vec::new();
        let mut lo: Vec<u8> = Vec::new();
        let mut i: u16 = 0;
        while i < 256
            invariant
                i <= 256,
                hi@.len() == i,
                lo@.len() == i,
                forall|j: int| 0 <= j < i ==> #[trigger] hi@[j] == table_hi(j as u8),
                forall|j: int| 0 <= j < i ==> #[trigger] lo@[j] == table_lo(j as u8),
            decreases 256 - i,
        {
            let e = table_entry_of(i as u8);
            hi.push((e & 0xFF) as u8);
            lo.push((e >> 8) as u8);
            i = i + 1;
        }
        assert(hi@ == Seq::new(256, |i: int| table_hi(i as u8)));
        assert(lo@ == Seq::new(256, |i: int| table_lo(i as u8)));
        LookupTable { hi, lo }
    }

    /// The high-byte table's entry at `index`.
    pub fn high(&self, index: u8) -> (r: u8)
        ensures
            r == table_hi(index),
    {
        proof {
            use_type_invariant(self);
        }
        self.hi[index as usize]
    }

    /// The low-byte table's entry at `index`.
    pub fn low(&self, index: u8) -> (r: u8)
        ensures
            r == table_lo(index),
    {
        proof {
            use_type_invariant(self);
        }
        self.lo[index as usize]
    }
}

/// The running register pair of the checksum engine.
pub struct CRC {
    hi_byte: u8,
    lo_byte: u8,
}

impl View for CRC {
    type V = (u8, u8);

    closed spec fn view(&self) -> (u8, u8) {
        (self.hi_byte, self.lo_byte)
    }
}

impl CRC {
    /// An engine holding the initial register pair (0xFF, 0xFF).
    pub fn new() -> (r: Self)
        ensures
            r@ == (0xFFu8, 0xFFu8),
    {
        CRC { hi_byte: 0xFF, lo_byte: 0xFF }
    }

    /// Resets the registers, consumes `data` byte by byte and returns
    /// `(hi << 8) | lo`. Nothing of an earlier calculation carries over.
    pub fn calculate(&mut self, table: &LookupTable, data: &[u8]) -> (r: u16)
        ensures
            r == checksum(data@),
            final(self)@ == registers_after(data@),
    {
        self.hi_byte = 0xFF;
        self.lo_byte = 0xFF;
        let mut i: usize = 0;
        while i < data.len()
            invariant
                i <= data@.len(),
                (self.hi_byte, self.lo_byte) == registers_after(data@.subrange(0, i as int)),
            decreases data@.len() - i,
        {
            let b = data[i];
            let index = self.hi_byte ^ b;
            self.hi_byte = self.lo_byte ^ table.high(index);
            self.lo_byte = table.low(index);
            assert(data@.subrange(0, i + 1).drop_last() == data@.subrange(0, i as int));
            i = i + 1;
        }
        assert(data@.subrange(0, data@.len() as int) == data@);
        ((self.hi_byte as u16) << 8) | (self.lo_byte as u16)
    }
}

/// The uppercase hexadecimal digit of a value below 16.
pub open spec fn upper_hex_digit(v: u16) -> char {
    seq!['0', '1', '2', '3', '4', '5', '6', '7', '8', '9', 'A', 'B', 'C', 'D', 'E', 'F'][v as int]
}

/// A 16-bit value as four uppercase hexadecimal digits, zero-padded.
pub open spec fn hex4(x: u16) -> Seq<char> {
    seq![
        upper_hex_digit((x >> 12) & 0xF),
        upper_hex_digit((x >> 8) & 0xF),
        upper_hex_digit((x >> 4) & 0xF),
        upper_hex_digit(x & 0xF),
    ]
}

fn digit_text(v: u16) -> (r: &'static str)
    requires
        v < 16,
    ensures
        r@ == seq![upper_hex_digit(v)],
{
    proof {
        reveal_strlit("0");
        reveal_strlit("1");
        reveal_strlit("2");
        reveal_strlit("3");
        reveal_strlit("4");
        reveal_strlit("5");
        reveal_strlit("6");
        reveal_strlit("7");
        reveal_strlit("8");
        reveal_strlit("9");
        reveal_strlit("A");
        reveal_strlit("B");
        reveal_strlit("C");
        reveal_strlit("D");
        reveal_strlit("E");
        reveal_strlit("F");
    }
    if v == 0 {
        "0"
    } else if v == 1 {
        "1"
    } else if v == 2 {
        "2"
    } else if v == 3 {
        "3"
    } else if v == 4 {
        "4"
    } else if v == 5 {
        "5"
    } else if v == 6 {
        "6"
    } else if v == 7 {
        "7"
    } else if v == 8 {
        "8"
    } else if v == 9 {
        "9"
    } else if v == 10 {
        "A"
    } else if v == 11 {
        "B"
    } else if v == 12 {
        "C"
    } else if v == 13 {
        "D"
    } else if v == 14 {
        "E"
    } else {
        "F"
    }
}

/// Renders a checksum as four uppercase hexadecimal digits, zero-padded.
pub fn checksum_hex(x: u16) -> (r: String)
    ensures
        r@ == hex4(x),
{
    let d3 = (x >> 12) & 0xF;
    let d2 = (x >> 8) & 0xF;
    let d1 = (x >> 4) & 0xF;
    let d0 = x & 0xF;
    assert(d3 < 16 && d2 < 16 && d1 < 16 && d0 < 16) by (bit_vector)
        requires
            d3 == (x >> 12) & 0xF,
            d2 == (x >> 8) & 0xF,
            d1 == (x >> 4) & 0xF,
            d0 == x & 0xF,
    ;
    let mut s = String::new();
    s.append(digit_text(d3));
    s.append(digit_text(d2));
    s.append(digit_text(d1));
    s.append(digit_text(d0));
    assert(s@ =~= hex4(x));
    s
}

} // verus!
