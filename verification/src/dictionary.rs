//! Dictionaries: a byte sequence with the identifier that its header
//! declares, read once when the dictionary is made.

use vstd::prelude::*;
use crate::batch::contents;
use crate::buffer::BufferView;
use crate::codec::ROOM_MAX;
use crate::engine::concat;
use crate::error::Error;
use crate::error::ErrorKind;
use crate::training::built;
use crate::training::spec_trained;
use crate::training::total;
use crate::training::trained;
use crate::training::trained_view;
use crate::training::zdict_train;

verus! {

/// The first four bytes, read as a little-endian number, of every
/// dictionary that carries an identifier.
pub const DICTIONARY_MAGIC: u32 = 0xEC30_A437;

/// The four bytes of `bytes` from `at` on, read as a little-endian number.
pub open spec fn le32(bytes: Seq<u8>, at: int) -> int
    recommends
        0 <= at,
        at + 4 <= bytes.len(),
{
    bytes[at] + 0x100 * bytes[at + 1] + 0x1_0000 * bytes[at + 2] + 0x100_0000 * bytes[at + 3]
}

/// The identifier that a dictionary's content declares: the number behind
/// the magic number, or zero where the content does not start with one
/// (such content is used as a plain prefix).
pub open spec fn dict_id_of(bytes: Seq<u8>) -> int {
    if bytes.len() >= 8 && le32(bytes, 0) == DICTIONARY_MAGIC {
        le32(bytes, 4)
    } else {
        0
    }
}

/// A dictionary: content that is never changed once made, and its
/// identifier, kept beside it so that no use reads the header again.
#[derive(Debug)]
pub struct Dictionary {
    bytes: Vec<u8>,
    id: u32,
}

impl View for Dictionary {
    type V = Seq<u8>;

    closed spec fn view(&self) -> Seq<u8> {
        self.bytes@
    }
}

fn read_le32(bytes: &Vec<u8>, at: usize) -> (r: u32)
    requires
        at + 4 <= bytes@.len(),
    ensures
        r == le32(bytes@, at as int),
{
    let len: usize = bytes.len();
    assert(at + 4 <= len);
    let b0: u64 = bytes[at] as u64;
    let b1: u64 = bytes[at + 1] as u64;
    let b2: u64 = bytes[at + 2] as u64;
    let b3: u64 = bytes[at + 3] as u64;
    let sum: u64 = b0 + 0x100 * b1 + 0x1_0000 * b2 + 0x100_0000 * b3;
    sum as u32
}

impl Dictionary {
    #[verifier::type_invariant]
    spec fn cached(self) -> bool {
        self.id == dict_id_of(self.bytes@)
    }

    /// Makes a dictionary of the given content.
    pub fn new(bytes: Vec<u8>) -> (d: Dictionary)
        ensures
            d@ == bytes@,
    {
        let id: u32 = if bytes.len() >= 8 && read_le32(&bytes, 0) == DICTIONARY_MAGIC {
            read_le32(&bytes, 4)
        } else {
            0
        };
        Dictionary { bytes, id }
    }

    /// The identifier that the content declares, zero if it declares none.
    pub fn id(&self) -> (id: u32)
        ensures
            id == dict_id_of(self@),
    {
        proof {
            use_type_invariant(self);
        }
        self.id
    }

    /// The content.
    pub fn as_bytes(&self) -> (bytes: &[u8])
        ensures
            bytes@ == self@,
    {
        self.bytes.as_slice()
    }

    /// The length of the content.
    pub fn len(&self) -> (n: usize)
        ensures
            n == self@.len(),
    {
        self.bytes.len()
    }
}

/// Lays the samples one behind the other and lists their lengths: what
/// the codec's dictionary builder is handed.
pub fn flatten<'a>(samples: &Vec<BufferView<'a>>) -> (r: (Vec<u8>, Vec<usize>))
    ensures
        r.0@ == concat(contents(samples@)),
        r.1@.len() == samples@.len(),
        forall|i: int| 0 <= i < samples@.len() ==> r.1@[i] == (#[trigger] samples@[i])@.len(),
        total(r.1@) == r.0@.len(),
{
    let mut flat: Vec<u8> = Vec::new();
    let mut sizes: Vec<usize> = Vec::new();
    let mut i: usize = 0;
    proof {
        assert(contents(samples@).take(0) =~= Seq::<Seq<u8>>::empty());
    }
    while i < samples.len()
        invariant
            i <= samples@.len(),
            sizes@.len() == i,
            flat@ == concat(contents(samples@).take(i as int)),
            forall|j: int| 0 <= j < i ==> sizes@[j] == (#[trigger] samples@[j])@.len(),
            total(sizes@) == flat@.len(),
        decreases samples@.len() - i,
    {
        let ghost sizes_before = sizes@;
        let ghost flat_before = flat@;
        flat.extend_from_slice(samples[i].as_slice());
        sizes.push(samples[i].len());
        proof {
            assert(sizes@.drop_last() =~= sizes_before);
            assert(flat@ =~= flat_before + samples@[i as int]@);
            assert(contents(samples@).take(i + 1).drop_last() =~= contents(samples@).take(
                i as int,
            ));
            assert(contents(samples@).take(i + 1).last() == samples@[i as int]@);
        }
        i = i + 1;
    }
    proof {
        assert(contents(samples@).take(i as int) =~= contents(samples@));
    }
    (flat, sizes)
}

/// The lengths of the samples.
pub open spec fn lengths(samples: Seq<Seq<u8>>) -> Seq<usize> {
    Seq::new(samples.len(), |i: int| samples[i].len() as usize)
}

/// What training on the samples with room for `capacity` bytes gives,
/// memory permitting: what `spec_trained` makes of what the codec's
/// dictionary builder leaves when it is run on the samples as `flatten`
/// lays them out.
pub open spec fn spec_train_dictionary(samples: Seq<Seq<u8>>, capacity: usize) -> Result<
    Seq<u8>,
    Error,
> {
    let left = built(concat(samples), lengths(samples), capacity);
    spec_trained(left.0, left.1)
}

/// Trains a dictionary of at most `capacity` bytes on the samples.
///
/// More samples than a 32-bit count holds, and a capacity above
/// `ROOM_MAX`, are refused with `InvalidParameter`. Otherwise the result
/// is what the codec's builder makes of the samples (see
/// `spec_train_dictionary`), whether a dictionary or a failure; only where
/// memory is short may it be `ResourceExhausted` instead.
pub fn train_dictionary<'a>(samples: &Vec<BufferView<'a>>, capacity: usize) -> (r: Result<
    Dictionary,
    Error,
>)
    ensures
        if samples@.len() <= u32::MAX && capacity <= ROOM_MAX {
            ||| trained_view(r) == spec_train_dictionary(contents(samples@), capacity)
            ||| trained_view(r) == Err::<Seq<u8>, Error>(
                Error { kind: ErrorKind::ResourceExhausted, offset: 0 },
            )
        } else {
            trained_view(r) == Err::<Seq<u8>, Error>(
                Error { kind: ErrorKind::InvalidParameter, offset: 0 },
            )
        },
        r matches Ok(d) ==> d@.len() <= capacity,
{
    if samples.len() > u32::MAX as usize || capacity > ROOM_MAX {
        return Err(Error::new(ErrorKind::InvalidParameter, 0));
    }
    let (flat, sizes) = flatten(samples);
    proof {
        assert(sizes@ =~= lengths(contents(samples@)));
    }
    trained(zdict_train(flat.as_slice(), sizes.as_slice(), capacity))
}

} // verus!
