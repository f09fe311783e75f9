use vstd::prelude::*;

verus! {

/// The bytes of a `REG_SZ` value holding the given UTF-16 text: each unit,
/// low byte first, then a terminating NUL unit.
pub open spec fn reg_sz_bytes(text: Seq<u16>) -> Seq<u8> {
    Seq::new(
        2 * (text.len() + 1),
        |k: int|
            {
                let unit: u16 = if k / 2 < text.len() { text[k / 2] } else { 0 };
                if k % 2 == 0 {
                    (unit % 256) as u8
                } else {
                    (unit / 256) as u8
                }
            },
    )
}

/// The value is two bytes per unit, low byte first, so each pair of bytes
/// reads back as the unit; then two zero bytes end it.
pub proof fn lemma_reg_sz_reads_back(text: Seq<u16>)
    ensures
        reg_sz_bytes(text).len() == 2 * text.len() + 2,
        forall|i: int| 0 <= i < text.len() ==> reg_sz_bytes(text)[2 * i] + 256 * reg_sz_bytes(text)[2 * i + 1]
            == #[trigger] text[i],
        reg_sz_bytes(text)[2 * text.len() as int] == 0 && reg_sz_bytes(text)[2 * text.len() as int + 1] == 0,
{
    assert forall|i: int| 0 <= i < text.len() implies reg_sz_bytes(text)[2 * i] + 256 * reg_sz_bytes(text)[2
        * i + 1] == #[trigger] text[i] by {
        assert((2 * i) / 2 == i);
        assert((2 * i + 1) / 2 == i);
        assert((2 * i) % 2 == 0);
        assert((2 * i + 1) % 2 == 1);
        let u = text[i];
        assert(((u % 256) as u8) as int + 256 * (((u / 256) as u8) as int) == u as int);
    }
    assert((2 * text.len()) / 2 == text.len());
    assert((2 * text.len() + 1) / 2 == text.len());
}

/// The data written to the "Run" registry value so that the program starts
/// with Windows: its executable's path as a NUL-terminated UTF-16 string.
pub fn run_value_bytes(path: &[u16]) -> (bytes: Vec<u8>)
    requires
        2 * (path@.len() + 1) <= usize::MAX,
    ensures
        bytes@ == reg_sz_bytes(path@),
{
    let mut bytes: Vec<u8> = Vec::new();
    let mut i: usize = 0;
    while i < path.len()
        invariant
            i <= path.len(),
            bytes@.len() == 2 * i,
            forall|k: int| 0 <= k < bytes@.len() ==> #[trigger] bytes@[k] == reg_sz_bytes(path@)[k],
        decreases path.len() - i,
    {
        let unit = path[i];
        bytes.push((unit % 256) as u8);
        bytes.push((unit / 256) as u8);
        i = i + 1;
    }
    bytes.push(0);
    bytes.push(0);
    assert(bytes@ =~= reg_sz_bytes(path@));
    bytes
}

} // verus!
