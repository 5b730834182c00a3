use vstd::prelude::*;
use crate::grid::Element;
use crate::grid::Grid;
use crate::grid::GridError;

verus! {

/// The fixed color table: four bytes R, G, B, A per element. `Nova` has no
/// color of its own and falls back to the sentinel magenta.
pub open spec fn rgba(e: Element) -> Seq<u8> {
    match e {
        Element::Empty => seq![0x05u8, 0x05u8, 0x05u8, 0xffu8],
        Element::Sand => seq![0xefu8, 0xcfu8, 0xaeu8, 0xffu8],
        Element::Wall => seq![0x22u8, 0x22u8, 0x22u8, 0xffu8],
        Element::Fire => seq![0xffu8, 0x55u8, 0x55u8, 0xffu8],
        Element::Water => seq![0x00u8, 0xaau8, 0xaau8, 0xffu8],
        Element::Nova => seq![0xffu8, 0x00u8, 0xffu8, 0xffu8],
    }
}

/// The color table as executable bytes.
fn color_bytes(e: Element) -> (c: (u8, u8, u8, u8))
    ensures
        c.0 == rgba(e)[0],
        c.1 == rgba(e)[1],
        c.2 == rgba(e)[2],
        c.3 == rgba(e)[3],
{
    match e {
        Element::Empty => (0x05, 0x05, 0x05, 0xff),
        Element::Sand => (0xef, 0xcf, 0xae, 0xff),
        Element::Wall => (0x22, 0x22, 0x22, 0xff),
        Element::Fire => (0xff, 0x55, 0x55, 0xff),
        Element::Water => (0x00, 0xaa, 0xaa, 0xff),
        Element::Nova => (0xff, 0x00, 0xff, 0xff),
    }
}

impl Grid {
    /// Rasterize the grid into a caller-supplied pixel buffer, one RGBA
    /// quadruple per cell in the same row-major order; a buffer that is not
    /// exactly four bytes per cell is rejected untouched.
    pub fn render(&self, buffer: &mut Vec<u8>) -> (r: Result<(), GridError>)
        requires
            self.wf(),
        ensures
            old(buffer)@.len() == 4 * self.len() ==> r == Ok::<(), GridError>(()),
            old(buffer)@.len() == 4 * self.len() ==> final(buffer)@.len() == old(buffer)@.len(),
            old(buffer)@.len() == 4 * self.len() ==> forall|j: int, b: int|
                0 <= j < self.len() && 0 <= b < 4 ==> #[trigger] final(buffer)@[4 * j + b] == rgba(
                    self.cells@[j],
                )[b],
            old(buffer)@.len() != 4 * self.len() ==> r == Err::<(), GridError>(
                GridError::BufferSizeMismatch,
            ) && final(buffer)@ == old(buffer)@,
    {
        let n = self.cells.len();
        let blen = buffer.len();
        if blen / 4 != n || blen % 4 != 0 {
            return Err(GridError::BufferSizeMismatch);
        }
        proof {
            assert(blen == 4 * n);
        }
        let mut j: usize = 0;
        while j < n
            invariant
                blen == 4 * n,
                n == self.cells@.len(),
                buffer@.len() == old(buffer)@.len(),
                buffer@.len() == 4 * n,
                j <= n,
                forall|q: int, b: int|
                    0 <= q < j && 0 <= b < 4 ==> #[trigger] buffer@[4 * q + b] == rgba(
                        self.cells@[q],
                    )[b],
            decreases n - j,
        {
            let (c0, c1, c2, c3) = color_bytes(self.cells[j]);
            buffer.set(4 * j, c0);
            buffer.set(4 * j + 1, c1);
            buffer.set(4 * j + 2, c2);
            buffer.set(4 * j + 3, c3);
            j = j + 1;
        }
        Ok(())
    }
}

} // verus!
