//! The level file format.
//!
//! Bytes 0 and 1 are a header that is not read. Byte 2 packs the width (high
//! nibble) and the height (low nibble). Byte 3 is the budget of lateral
//! moves. From byte 4 on come tile records in row-major order: a header byte
//! whose high nibble is the number `L` of metadata bytes and whose low nibble
//! is the kind tag, then the `L` metadata bytes.
use vstd::prelude::*;
use vstd::slice::slice_subrange;
use crate::facing::{Facing, Side};
use crate::level::Level;
use crate::tile::Tile;

verus! {

/// The tiles of the records that start at offset `i` and run to the end of
/// `b`; `None` when a record's metadata runs past the end or a record cannot
/// be read.
pub open spec fn records_from(b: Seq<u8>, i: int) -> Option<Seq<Tile>>
    decreases b.len() - i,
{
    if i >= b.len() {
        Some(Seq::empty())
    } else {
        let len = (b[i] / 16) as int;
        let next = i + 1 + len;
        if next > b.len() {
            None
        } else {
            match Tile::from_record(b[i] % 16, b.subrange(i + 1, next)) {
                None => None,
                Some(t) => match records_from(b, next) {
                    None => None,
                    Some(rest) => Some(seq![t] + rest),
                },
            }
        }
    }
}

/// `ts` cut or padded with `Empty` to exactly `n` tiles.
pub open spec fn fitted(ts: Seq<Tile>, n: nat) -> Seq<Tile> {
    Seq::new(n, |k: int| if k < ts.len() { ts[k] } else { Tile::Empty })
}

/// `prefix` followed by the tiles of `rest`, when there are any.
pub open spec fn prepended(prefix: Seq<Tile>, rest: Option<Seq<Tile>>) -> Option<Seq<Tile>> {
    match rest {
        None => None,
        Some(r) => Some(prefix + r),
    }
}

/// The bytes of a level can be read: there are at least three and every
/// tile record can be read.
pub open spec fn decodable(b: Seq<u8>) -> bool {
    b.len() >= 3 && records_from(b, 4) is Some
}

/// The level that readable bytes describe, as its four fields. The tile
/// records are cut or padded with `Empty` to one per cell; a missing budget
/// byte reads as zero.
pub open spec fn decoded(b: Seq<u8>) -> (u8, u8, Seq<Tile>, u8) {
    let w = b[2] / 16;
    let h = b[2] % 16;
    (
        w,
        h,
        fitted(records_from(b, 4)->0, (w * h) as nat),
        if b.len() > 3 { b[3] } else { 0 },
    )
}

/// The bytes of one tile record.
pub open spec fn record_bytes(t: Tile) -> Seq<u8> {
    match t {
        Tile::Empty => seq![0x00u8],
        Tile::Wall => seq![0x01u8],
        Tile::Finish => seq![0x02u8],
        Tile::PlayerRotate(Side::Left) => seq![0x13u8, 0u8],
        Tile::PlayerRotate(Side::Right) => seq![0x13u8, 1u8],
        Tile::RowShift(f) => seq![0x14u8, f.ord() as u8],
    }
}

/// The records of `ts`, one after the other.
pub open spec fn records_of(ts: Seq<Tile>) -> Seq<u8>
    decreases ts.len(),
{
    if ts.len() == 0 {
        Seq::empty()
    } else {
        record_bytes(ts[0]) + records_of(ts.drop_first())
    }
}

/// The bytes of a level: a zero header, the packed dimensions, the budget
/// and one record per tile.
pub open spec fn encoded(l: &Level) -> Seq<u8> {
    seq![0u8, 0u8, (l.width * 16 + l.height) as u8, l.side_moves] + records_of(l.level@)
}

/// Appending a tile appends its record.
pub proof fn lemma_records_of_push(ts: Seq<Tile>, t: Tile)
    ensures
        records_of(ts.push(t)) == records_of(ts) + record_bytes(t),
    decreases ts.len(),
{
    if ts.len() == 0 {
        assert(ts.push(t).drop_first() =~= Seq::<Tile>::empty());
        assert(records_of(ts.push(t).drop_first()) == Seq::<u8>::empty());
        assert(records_of(ts.push(t)) =~= records_of(ts) + record_bytes(t));
    } else {
        assert(ts.push(t).drop_first() =~= ts.drop_first().push(t));
        lemma_records_of_push(ts.drop_first(), t);
        assert(records_of(ts.push(t)) =~= records_of(ts) + record_bytes(t));
    }
}

/// The records of `ts`, after any bytes, read back as `ts`.
pub proof fn lemma_records_read_back(prefix: Seq<u8>, ts: Seq<Tile>)
    ensures
        records_from(prefix + records_of(ts), prefix.len() as int) == Some(ts),
    decreases ts.len(),
{
    if ts.len() == 0 {
        assert(prefix + records_of(ts) =~= prefix);
        assert(ts =~= Seq::<Tile>::empty());
    } else {
        let r = record_bytes(ts[0]);
        let rest = ts.drop_first();
        let b = prefix + records_of(ts);
        assert(b =~= (prefix + r) + records_of(rest));
        lemma_records_read_back(prefix + r, rest);
        let i = prefix.len() as int;
        assert(b[i] == r[0]);
        assert(b.subrange(i + 1, i + r.len()) =~= r.subrange(1, r.len() as int));
        match ts[0] {
            Tile::RowShift(f) => {
                assert(Facing::from_ord(f.ord() as u8 as int) == f);
            },
            _ => {},
        }
        assert(Tile::from_record(r[0] % 16, r.subrange(1, r.len() as int)) == Some(ts[0]));
        assert(seq![ts[0]] + rest =~= ts);
    }
}

/// Reading the bytes that encode a well-formed level gives the level back.
pub proof fn lemma_decode_encoded(l: &Level)
    requires
        l.wf(),
    ensures
        decodable(encoded(l)),
        decoded(encoded(l)) == (l.width, l.height, l.level@, l.side_moves),
{
    let header = seq![0u8, 0u8, (l.width * 16 + l.height) as u8, l.side_moves];
    lemma_records_read_back(header, l.level@);
    assert(encoded(l)[2] == l.width * 16 + l.height);
    assert(fitted(l.level@, (l.width * l.height) as nat) =~= l.level@);
}

/// Appends the record of `t`.
fn push_record(out: &mut Vec<u8>, t: Tile)
    ensures
        final(out)@ == old(out)@ + record_bytes(t),
{
    let ghost start = out@;
    match t {
        Tile::Empty => out.push(0x00),
        Tile::Wall => out.push(0x01),
        Tile::Finish => out.push(0x02),
        Tile::PlayerRotate(side) => {
            out.push(0x13);
            match side {
                Side::Left => out.push(0),
                Side::Right => out.push(1),
            }
        },
        Tile::RowShift(f) => {
            out.push(0x14);
            out.push(f.quarter_turns());
        },
    }
    assert(out@ =~= start + record_bytes(t));
}

impl Level {
    /// Reads a level. `None` when there are fewer than three bytes, when a
    /// record's metadata runs past the end, or when a rotation or shift
    /// record has no metadata. The records are cut or padded with `Empty` to
    /// one per cell.
    pub fn from_bytes(source: &[u8]) -> (r: Option<Level>)
        ensures
            r is Some <==> decodable(source@),
            r matches Some(l) ==> {
                &&& l.wf()
                &&& (l.width, l.height, l.level@, l.side_moves) == decoded(source@)
            },
    {
        if source.len() < 3 {
            return None;
        }
        let packed = source[2];
        let width = packed >> 4;
        let height = packed & 0x0f;
        assert(packed >> 4 == packed / 16) by (bit_vector);
        assert(packed & 0x0f == packed % 16) by (bit_vector);
        let ghost b = source@;
        let mut tiles: Vec<Tile> = Vec::new();
        let mut i: usize = 4;
        while i < source.len()
            invariant
                b == source@,
                4 <= i,
                records_from(b, 4) == prepended(tiles@, records_from(b, i as int)),
            decreases source.len() - i,
        {
            let header = source[i];
            let tile_len = (header >> 4) as usize;
            let tag = header & 0x0f;
            assert(header >> 4 == header / 16) by (bit_vector);
            assert(header & 0x0f == header % 16) by (bit_vector);
            if tile_len > source.len() - i - 1 {
                return None;
            }
            let next = i + 1 + tile_len;
            let meta = slice_subrange(source, i + 1, next);
            match Tile::parse(tag, meta) {
                None => {
                    return None;
                },
                Some(t) => {
                    proof {
                        match records_from(b, next as int) {
                            None => {},
                            Some(rest) => {
                                assert(tiles@ + (seq![t] + rest) =~= tiles@.push(t) + rest);
                            },
                        }
                    }
                    tiles.push(t);
                },
            }
            i = next;
        }
        assert(tiles@ + Seq::<Tile>::empty() =~= tiles@);
        let ghost parsed = tiles@;
        assert(width * height <= 225) by (nonlinear_arith)
            requires
                width < 16,
                height < 16,
        ;
        let cells = width as usize * height as usize;
        tiles.truncate(cells);
        while tiles.len() < cells
            invariant
                cells == width * height,
                tiles@.len() <= cells,
                tiles@.len() >= parsed.len() || tiles@.len() == cells,
                forall|k: int| 0 <= k < tiles@.len() ==> #[trigger] tiles@[k] == fitted(parsed, cells as nat)[k],
            decreases cells - tiles.len(),
        {
            tiles.push(Tile::Empty);
        }
        assert(tiles@ =~= fitted(parsed, cells as nat));
        let side_moves = if source.len() > 3 {
            source[3]
        } else {
            0
        };
        Some(Level { width, height, level: tiles, side_moves })
    }

    /// Writes the level in the format that `from_bytes` reads: a zero
    /// header, the packed dimensions, the budget and one record per tile.
    pub fn to_bytes(&self) -> (r: Vec<u8>)
        requires
            self.wf(),
        ensures
            r@ == encoded(self),
    {
        let mut out: Vec<u8> = Vec::new();
        out.push(0);
        out.push(0);
        out.push(self.width * 16 + self.height);
        out.push(self.side_moves);
        let ghost header = out@;
        let mut i: usize = 0;
        while i < self.level.len()
            invariant
                i <= self.level@.len(),
                out@ == header + records_of(self.level@.take(i as int)),
            decreases self.level@.len() - i,
        {
            let t = self.level[i];
            proof {
                lemma_records_of_push(self.level@.take(i as int), t);
                assert(self.level@.take(i + 1) =~= self.level@.take(i as int).push(t));
            }
            push_record(&mut out, t);
            assert(out@ =~= header + records_of(self.level@.take(i + 1)));
            i = i + 1;
        }
        assert(self.level@.take(i as int) =~= self.level@);
        assert(header =~= seq![0u8, 0u8, (self.width * 16 + self.height) as u8, self.side_moves]);
        out
    }
}

} // verus!
