//! Typed, disposable chunks and decoy synthesis.
use vstd::prelude::*;

use crate::disposable::IDisposable;
use crate::entropy::{random_bytes, random_index};
use crate::error::TpeaError;
use crate::poly::Share;

verus! {

/// The role of a chunk.
#[derive(Debug, Clone, Copy, PartialEq, Eq, Structural)]
pub enum ChunkType {
    SliceContainingHeaderChunk,
    SliceContainingHeaderContent,
    SignificantSliceDerived1,
    SignificantSliceDerived2,
    InsignificantSliceOfData,
}

impl ChunkType {
    /// Whether a chunk of this role holds secret material and must be wiped on disposal.
    pub open spec fn sensitive(self) -> bool {
        match self {
            ChunkType::SliceContainingHeaderContent => true,
            ChunkType::SignificantSliceDerived1 => true,
            ChunkType::SignificantSliceDerived2 => true,
            _ => false,
        }
    }

    pub fn is_sensitive(&self) -> (r: bool)
        ensures
            r == self.sensitive(),
    {
        match self {
            ChunkType::SliceContainingHeaderContent => true,
            ChunkType::SignificantSliceDerived1 => true,
            ChunkType::SignificantSliceDerived2 => true,
            _ => false,
        }
    }

    /// The byte that marks this role in a serialized chunk.
    pub fn tag(&self) -> (r: u8)
        ensures
            *self == ChunkType::SliceContainingHeaderChunk ==> r == 0xFC,
            *self == ChunkType::SliceContainingHeaderContent ==> r == 0xED,
            *self == ChunkType::SignificantSliceDerived1 ==> r == 0x79,
            *self == ChunkType::SignificantSliceDerived2 ==> r == 0xA0,
            *self == ChunkType::InsignificantSliceOfData ==> r == 0x56,
    {
        match self {
            ChunkType::SliceContainingHeaderChunk => 0xFC,
            ChunkType::SliceContainingHeaderContent => 0xED,
            ChunkType::SignificantSliceDerived1 => 0x79,
            ChunkType::SignificantSliceDerived2 => 0xA0,
            ChunkType::InsignificantSliceOfData => 0x56,
        }
    }
}

/// A payload buffer, owned exclusively, tagged with its role.
pub struct Chunk {
    type_: ChunkType,
    disposed_: bool,
    payload_: Vec<u8>,
}

fn copy_bytes(b: &[u8]) -> (r: Vec<u8>)
    ensures
        r@ == b@,
{
    let mut out: Vec<u8> = Vec::new();
    let mut i: usize = 0;
    while i < b.len()
        invariant
            i <= b@.len(),
            out@ == b@.subrange(0, i as int),
        decreases b@.len() - i,
    {
        out.push(b[i]);
        i = i + 1;
        assert(out@ =~= b@.subrange(0, i as int));
    }
    assert(b@.subrange(0, b@.len() as int) =~= b@);
    out
}

/// The separator between the words of a decoy.
pub const WORD_SEPARATOR: u8 = 10;

/// The words `ws` joined by the separator.
pub open spec fn joined(ws: Seq<Seq<u8>>) -> Seq<u8>
    decreases ws.len(),
{
    if ws.len() == 0 {
        seq![]
    } else if ws.len() == 1 {
        ws[0]
    } else {
        joined(ws.drop_last()) + seq![WORD_SEPARATOR] + ws.last()
    }
}

/// The length of `ws` with one separator counted after every word.
pub open spec fn spaced_len(ws: Seq<Seq<u8>>) -> nat
    decreases ws.len(),
{
    if ws.len() == 0 {
        0
    } else {
        spaced_len(ws.drop_last()) + ws.last().len() + 1
    }
}

/// The dictionary words at the indices `picks`.
pub open spec fn words_of(dict: Seq<Vec<u8>>, picks: Seq<usize>) -> Seq<Seq<u8>> {
    picks.map_values(|p: usize| dict[p as int]@)
}

pub open spec fn picks_valid(dict: Seq<Vec<u8>>, picks: Seq<usize>) -> bool {
    forall|t: int| 0 <= t < picks.len() ==> #[trigger] picks[t] < dict.len()
}

/// The layout of a decoy: padding longer than six bytes is split in half around the
/// text; shorter padding all precedes it.
pub open spec fn decoy_layout(text: Seq<u8>, pad: Seq<u8>) -> Seq<u8> {
    if pad.len() > 6 {
        pad.take(pad.len() as int / 2) + text + pad.skip(pad.len() as int / 2)
    } else {
        pad + text
    }
}

/// Whether some word of the dictionary, with its separator, fits in `len` bytes.
pub open spec fn some_word_fits(dict: Seq<Vec<u8>>, len: usize) -> bool {
    exists|w: int| 0 <= w < dict.len() && #[trigger] dict[w]@.len() + 1 <= len
}

/// Whether a decoy of `len` bytes can be made from `dict`.
pub open spec fn decoy_possible(dict: Seq<Vec<u8>>, len: usize) -> bool {
    dict.len() > 0 && (len == 0 || some_word_fits(dict, len))
}

proof fn lemma_joined_len(ws: Seq<Seq<u8>>)
    ensures
        ws.len() == 0 ==> joined(ws).len() == 0,
        ws.len() > 0 ==> joined(ws).len() == spaced_len(ws) - 1,
    decreases ws.len(),
{
    if ws.len() > 1 {
        lemma_joined_len(ws.drop_last());
    } else if ws.len() == 1 {
        assert(ws.drop_last().len() == 0);
        assert(spaced_len(ws.drop_last()) == 0);
        assert(ws.last() == ws[0]);
    }
}

proof fn lemma_words_push(dict: Seq<Vec<u8>>, picks: Seq<usize>, p: usize)
    ensures
        words_of(dict, picks.push(p)).drop_last() == words_of(dict, picks),
        words_of(dict, picks.push(p)).last() == dict[p as int]@,
        words_of(dict, picks.push(p)).len() == picks.len() + 1,
{
    assert(words_of(dict, picks.push(p)).drop_last() =~= words_of(dict, picks));
}

/// Joins the dictionary words at the indices `picks` with the separator.
pub fn join_words(dictionary: &Vec<Vec<u8>>, picks: &Vec<usize>) -> (r: Vec<u8>)
    requires
        picks_valid(dictionary@, picks@),
    ensures
        r@ == joined(words_of(dictionary@, picks@)),
{
    let mut out: Vec<u8> = Vec::new();
    let mut t: usize = 0;
    while t < picks.len()
        invariant
            t <= picks@.len(),
            picks_valid(dictionary@, picks@),
            out@ == joined(words_of(dictionary@, picks@.take(t as int))),
        decreases picks@.len() - t,
    {
        let w = &dictionary[picks[t]];
        if t > 0 {
            out.push(WORD_SEPARATOR);
        }
        let ghost base = out@;
        let mut c: usize = 0;
        while c < w.len()
            invariant
                c <= w@.len(),
                out@ == base + w@.take(c as int),
            decreases w@.len() - c,
        {
            out.push(w[c]);
            c = c + 1;
            assert(out@ =~= base + w@.take(c as int));
        }
        assert(w@.take(w@.len() as int) =~= w@);
        proof {
            assert(picks@.take(t + 1) =~= picks@.take(t as int).push(picks@[t as int]));
            lemma_words_push(dictionary@, picks@.take(t as int), picks@[t as int]);
            if t == 0 {
                assert(base =~= seq![]);
                assert(out@ =~= w@);
            }
        }
        t = t + 1;
    }
    assert(picks@.take(picks@.len() as int) =~= picks@);
    out
}

/// Places the padding around the decoy text as `decoy_layout` says.
pub fn assemble_decoy(text: &Vec<u8>, pad: &Vec<u8>) -> (r: Vec<u8>)
    ensures
        r@ == decoy_layout(text@, pad@),
{
    let split: usize = if pad.len() > 6 { pad.len() / 2 } else { pad.len() };
    let mut out: Vec<u8> = Vec::new();
    let mut i: usize = 0;
    while i < split
        invariant
            split <= pad@.len(),
            i <= split,
            out@ == pad@.take(i as int),
        decreases split - i,
    {
        out.push(pad[i]);
        i = i + 1;
        assert(out@ =~= pad@.take(i as int));
    }
    let ghost head = out@;
    let mut t: usize = 0;
    while t < text.len()
        invariant
            t <= text@.len(),
            out@ == head + text@.take(t as int),
        decreases text@.len() - t,
    {
        out.push(text[t]);
        t = t + 1;
        assert(out@ =~= head + text@.take(t as int));
    }
    assert(text@.take(text@.len() as int) =~= text@);
    let ghost mid = out@;
    let mut j: usize = split;
    while j < pad.len()
        invariant
            split <= j <= pad@.len(),
            out@ == mid + pad@.subrange(split as int, j as int),
        decreases pad@.len() - j,
    {
        out.push(pad[j]);
        j = j + 1;
        assert(out@ =~= mid + pad@.subrange(split as int, j as int));
    }
    assert(out@ =~= decoy_layout(text@, pad@));
    out
}

/// `draws` reach `len` with their last word and not before: their text is at least
/// `len` bytes long, and without the last word it was shorter.
pub open spec fn draws_reach(dict: Seq<Vec<u8>>, draws: Seq<usize>, len: usize) -> bool {
    &&& draws.len() > 0
    &&& joined(words_of(dict, draws)).len() >= len
    &&& draws.len() > 1 ==> joined(words_of(dict, draws.drop_last())).len() < len
}

/// `picks` is the longest prefix of `draws` whose text fits in `len` bytes.
pub open spec fn is_longest_fit(dict: Seq<Vec<u8>>, draws: Seq<usize>, len: usize, picks: Seq<usize>) -> bool {
    &&& picks.len() <= draws.len()
    &&& picks == draws.take(picks.len() as int)
    &&& joined(words_of(dict, picks)).len() <= len
    &&& picks.len() < draws.len() ==> joined(words_of(dict, draws.take(picks.len() as int + 1))).len() > len
}

/// The longest prefix of the drawn word indices `draws` whose words, joined, fit in
/// `len` bytes.
pub fn select_words(len: usize, dictionary: &Vec<Vec<u8>>, draws: &Vec<usize>) -> (r: Vec<usize>)
    requires
        picks_valid(dictionary@, draws@),
    ensures
        is_longest_fit(dictionary@, draws@, len, r@),
        picks_valid(dictionary@, r@),
{
    let mut picks: Vec<usize> = Vec::new();
    let mut acc: u128 = 0;
    let mut t: usize = 0;
    while t < draws.len()
        invariant
            t <= draws@.len(),
            picks_valid(dictionary@, draws@),
            picks@ == draws@.take(t as int),
            acc == spaced_len(words_of(dictionary@, picks@)),
            acc <= len as u128 + 1,
        decreases draws@.len() - t,
    {
        let idx = draws[t];
        let next = acc + dictionary[idx].len() as u128 + 1;
        proof {
            assert(draws@.take(t + 1) =~= picks@.push(idx));
            lemma_words_push(dictionary@, picks@, idx);
            lemma_joined_len(words_of(dictionary@, picks@));
            lemma_joined_len(words_of(dictionary@, picks@.push(idx)));
        }
        if next > len as u128 + 1 {
            return picks;
        }
        acc = next;
        picks.push(idx);
        t = t + 1;
    }
    proof {
        lemma_joined_len(words_of(dictionary@, picks@));
    }
    picks
}

/// Whether some word of `dictionary`, with its separator, fits in `len` bytes.
fn word_fits(dictionary: &Vec<Vec<u8>>, len: usize) -> (r: bool)
    ensures
        r == some_word_fits(dictionary@, len),
{
    let mut w: usize = 0;
    while w < dictionary.len()
        invariant
            w <= dictionary@.len(),
            forall|v: int| 0 <= v < w ==> #[trigger] dictionary@[v]@.len() + 1 > len,
        decreases dictionary@.len() - w,
    {
        if dictionary[w].len() < len {
            assert(dictionary@[w as int]@.len() + 1 <= len);
            return true;
        }
        w = w + 1;
    }
    false
}

impl Chunk {
    /// The role of the chunk.
    pub closed spec fn kind(&self) -> ChunkType {
        self.type_
    }

    /// Whether the chunk has been disposed.
    pub closed spec fn disposed(&self) -> bool {
        self.disposed_
    }

    /// The bytes the chunk holds.
    pub closed spec fn contents(&self) -> Seq<u8> {
        self.payload_@
    }

    /// A decoy of `len` bytes: dictionary words drawn at random until their text
    /// reaches `len`, the longest prefix of the draws that fits kept (`select_words`),
    /// and the shortfall filled with random bytes laid out by `decoy_layout`.
    pub fn of_insignificant(len: usize, dictionary: &Vec<Vec<u8>>) -> (r: Result<Chunk, TpeaError>)
        ensures
            !decoy_possible(dictionary@, len) ==> r == Err::<Chunk, TpeaError>(
                TpeaError::UnsatisfiableLength,
            ),
            decoy_possible(dictionary@, len) ==> r is Ok,
            r matches Ok(c) ==> {
                &&& c.kind() == ChunkType::InsignificantSliceOfData
                &&& !c.disposed()
                &&& c.contents().len() == len
                &&& exists|draws: Seq<usize>, picks: Seq<usize>, pad: Seq<u8>|
                    #![trigger draws_reach(dictionary@, draws, len), decoy_layout(joined(words_of(dictionary@, picks)), pad)]
                    picks_valid(dictionary@, draws) && draws_reach(dictionary@, draws, len)
                        && is_longest_fit(dictionary@, draws, len, picks) && pad.len() + joined(
                        words_of(dictionary@, picks),
                    ).len() == len && c.contents() == decoy_layout(
                        joined(words_of(dictionary@, picks)),
                        pad,
                    )
            },
    {
        if dictionary.len() == 0 {
            return Err(TpeaError::UnsatisfiableLength);
        }
        if len > 0 && !word_fits(dictionary, len) {
            return Err(TpeaError::UnsatisfiableLength);
        }
        let mut draws: Vec<usize> = Vec::new();
        let mut acc: u128 = 0;
        while acc <= len as u128
            invariant
                dictionary@.len() > 0,
                picks_valid(dictionary@, draws@),
                acc == spaced_len(words_of(dictionary@, draws@)),
                acc <= 2 * (usize::MAX as u128) + 2,
                draws@.len() > 1 ==> joined(words_of(dictionary@, draws@.drop_last())).len() < len,
            decreases (if acc <= len as u128 { len as int + 1 - acc as int } else { 0 }),
        {
            let idx = random_index(dictionary.len());
            let w = dictionary[idx].len();
            let ghost before = draws@;
            proof {
                lemma_words_push(dictionary@, draws@, idx);
                lemma_joined_len(words_of(dictionary@, draws@));
            }
            acc = acc + w as u128 + 1;
            draws.push(idx);
            assert(draws@.drop_last() =~= before);
        }
        proof {
            lemma_joined_len(words_of(dictionary@, draws@));
        }
        let picks = select_words(len, dictionary, &draws);
        let text = join_words(dictionary, &picks);
        let shortfall = len - text.len();
        let pad = random_bytes(shortfall);
        let buf = assemble_decoy(&text, &pad);
        let c = Chunk { type_: ChunkType::InsignificantSliceOfData, disposed_: false, payload_: buf };
        assert(draws_reach(dictionary@, draws@, len));
        assert(decoy_layout(joined(words_of(dictionary@, picks@)), pad@) == c.contents());
        Ok(c)
    }

    /// A chunk holding header content.
    pub fn of_header_content(header: &[u8]) -> (r: Chunk)
        ensures
            r.kind() == ChunkType::SliceContainingHeaderContent,
            !r.disposed(),
            r.contents() == header@,
    {
        Chunk {
            payload_: copy_bytes(header),
            disposed_: false,
            type_: ChunkType::SliceContainingHeaderContent,
        }
    }

    /// A chunk holding a header marker.
    pub fn of_header(header: &[u8]) -> (r: Chunk)
        ensures
            r.kind() == ChunkType::SliceContainingHeaderChunk,
            !r.disposed(),
            r.contents() == header@,
    {
        Chunk {
            payload_: copy_bytes(header),
            disposed_: false,
            type_: ChunkType::SliceContainingHeaderChunk,
        }
    }

    /// A chunk holding a share's payload: the primary role for the first share a
    /// caller wraps, the secondary one for the others.
    pub fn of_share(share: &Share, primary: bool) -> (r: Chunk)
        ensures
            r.kind() == (if primary {
                ChunkType::SignificantSliceDerived1
            } else {
                ChunkType::SignificantSliceDerived2
            }),
            !r.disposed(),
            r.contents() == share.data@,
    {
        let type_ = if primary {
            ChunkType::SignificantSliceDerived1
        } else {
            ChunkType::SignificantSliceDerived2
        };
        Chunk { type_, payload_: copy_bytes(share.data.as_slice()), disposed_: false }
    }

    /// A chunk of the given role holding a copy of `payload_`.
    pub fn new(type_: ChunkType, payload_: &[u8]) -> (r: Chunk)
        ensures
            r.kind() == type_,
            !r.disposed(),
            r.contents() == payload_@,
    {
        Chunk { type_, payload_: copy_bytes(payload_), disposed_: false }
    }

    pub fn get_type(&self) -> (r: ChunkType)
        ensures
            r == self.kind(),
    {
        self.type_
    }

    pub fn is_disposed(&self) -> (r: bool)
        ensures
            r == self.disposed(),
    {
        self.disposed_
    }

    /// The payload; reading it after disposal fails.
    pub fn payload(&self) -> (r: Result<&[u8], TpeaError>)
        ensures
            self.disposed() ==> r == Err::<&[u8], TpeaError>(TpeaError::UseAfterDispose),
            !self.disposed() ==> r is Ok && r->Ok_0@ == self.contents(),
    {
        if self.disposed_ {
            return Err(TpeaError::UseAfterDispose);
        }
        Ok(self.payload_.as_slice())
    }

    /// Disposes the chunk, overwriting a sensitive payload with zeros first.
    /// Disposing a disposed chunk changes nothing.
    pub fn release(&mut self)
        ensures
            final(self).disposed(),
            final(self).kind() == old(self).kind(),
            old(self).disposed() ==> *final(self) == *old(self),
            !old(self).disposed() && old(self).kind().sensitive() ==> final(self).contents()
                == Seq::new(old(self).contents().len(), |i: int| 0u8),
            !old(self).disposed() && !old(self).kind().sensitive() ==> final(self).contents()
                == old(self).contents(),
    {
        if self.disposed_ {
            return;
        }
        if self.type_.is_sensitive() {
            let n = self.payload_.len();
            let mut i: usize = 0;
            while i < n
                invariant
                    n == self.payload_@.len(),
                    i <= n,
                    self.type_ == old(self).type_,
                    !self.disposed_,
                    n == old(self).payload_@.len(),
                    forall|t: int| 0 <= t < i ==> self.payload_@[t] == 0u8,
                decreases n - i,
            {
                self.payload_.set(i, 0u8);
                i = i + 1;
            }
            assert(self.payload_@ =~= Seq::new(n as nat, |i: int| 0u8));
        }
        self.disposed_ = true;
    }
}

impl IDisposable for Chunk {
    open spec fn is_released(&self) -> bool {
        self.disposed()
    }

    /// Disposed, with the role kept; a sensitive payload wiped to zeros, any other
    /// kept; a chunk disposed before left as it was.
    open spec fn released_from(&self, before: Chunk) -> bool {
        &&& self.disposed()
        &&& self.kind() == before.kind()
        &&& before.disposed() ==> *self == before
        &&& !before.disposed() && before.kind().sensitive() ==> self.contents() == Seq::new(
            before.contents().len(),
            |i: int| 0u8,
        )
        &&& !before.disposed() && !before.kind().sensitive() ==> self.contents()
            == before.contents()
    }

    fn dispose(&mut self) {
        self.release();
    }
}

} // verus!
