//! What every serializer of values shares: the place in the output, the
//! padding that aligns the next value, and the list of file descriptors that
//! the values refer to by their place in it.

use vstd::prelude::*;
use crate::byte_order::{u32_to_bytes, write_u32};
use crate::error::Error;
use crate::message::header::EndianSig;
use crate::utils::{append_bytes, append_zeros, padding_for, padding_for_n_bytes, zeros};

verus! {

/// The type code that opens a structure in a signature.
pub const STRUCT_SIG_START_CHAR: u8 = 0x28;

/// The file descriptors that serialized values refer to: the descriptors
/// themselves, or only their number, where the values are serialized to find
/// out their size.
#[derive(Debug, Clone, PartialEq, Eq)]
pub enum FdList {
    /// The file descriptors, in the order in which values referred to them
    /// first.
    Fds(Vec<i32>),
    /// The number of file descriptors that values referred to.
    Number(u32),
}

/// What a list of file descriptors holds, as plain values.
pub enum FdListView {
    /// The file descriptors.
    Fds(Seq<i32>),
    /// The number of file descriptors.
    Number(u32),
}

impl View for FdList {
    type V = FdListView;

    open spec fn view(&self) -> FdListView {
        match self {
            FdList::Fds(fds) => FdListView::Fds(fds@),
            FdList::Number(n) => FdListView::Number(*n),
        }
    }
}

/// The first place of `fd` in `fds`, or the length of `fds` where `fd` is not
/// in it.
pub open spec fn fd_place(fds: Seq<i32>, fd: i32) -> int
    decreases fds.len(),
{
    if fds.len() == 0 || fds[0] == fd {
        0
    } else {
        1 + fd_place(fds.skip(1), fd)
    }
}

impl FdListView {
    /// The number by which a value refers to the file descriptor `fd`: in a
    /// list of descriptors, the first place of `fd`, which is put at the end
    /// where it is not in the list; where only a number is kept, that number.
    pub open spec fn index_for(self, fd: i32) -> int {
        match self {
            FdListView::Fds(fds) => fd_place(fds, fd),
            FdListView::Number(n) => n as int,
        }
    }

    /// The list after a value referred to the file descriptor `fd`.
    pub open spec fn with_fd(self, fd: i32) -> FdListView {
        match self {
            FdListView::Fds(fds) => if fd_place(fds, fd) < fds.len() {
                self
            } else {
                FdListView::Fds(fds.push(fd))
            },
            FdListView::Number(n) => FdListView::Number((n + 1) as u32),
        }
    }
}

impl FdList {
    /// Takes note that a value refers to the file descriptor `fd`, and gives
    /// the number by which the value refers to it.
    ///
    /// A file descriptor that is in a list of descriptors already is not put
    /// there again. More than 2^32 - 1 file descriptors give `ExcessData`,
    /// and nothing changes.
    pub fn add_fd(&mut self, fd: i32) -> (res: Result<u32, Error>)
        ensures
            old(self)@.index_for(fd) < u32::MAX ==> (res matches Ok(idx) && idx == old(
                self,
            )@.index_for(fd) && final(self)@ == old(self)@.with_fd(fd)),
            old(self)@.index_for(fd) >= u32::MAX ==> (res matches Err(e) && e is ExcessData)
                && final(self)@ == old(self)@,
    {
        let ghost before = self@;
        let mut taken = FdList::Number(0);
        std::mem::swap(self, &mut taken);
        match taken {
            FdList::Fds(mut fds) => {
                let n = fds.len();
                let mut i: usize = 0;
                let mut found = false;
                assert(fds@.skip(0) =~= fds@);
                while i < n && !found
                    invariant
                        i <= n,
                        n == fds@.len(),
                        before == FdListView::Fds(fds@),
                        fd_place(fds@, fd) == i + fd_place(fds@.skip(i as int), fd),
                        found ==> i < n && fds@[i as int] == fd,
                    decreases n - i + (if found { 0int } else { 1int }),
                {
                    let ghost rest = fds@.skip(i as int);
                    assert(rest[0] == fds@[i as int]);
                    assert(rest.skip(1) =~= fds@.skip(i + 1));
                    if fds[i] == fd {
                        found = true;
                    } else {
                        i += 1;
                    }
                }
                proof {
                    let rest = fds@.skip(i as int);
                    if found {
                        assert(rest[0] == fds@[i as int]);
                    } else {
                        assert(rest.len() == 0);
                    }
                    assert(fd_place(fds@, fd) == i);
                }
                if i >= 0xffff_ffff {
                    *self = FdList::Fds(fds);
                    return Err(Error::ExcessData);
                }
                if i == n {
                    fds.push(fd);
                }
                *self = FdList::Fds(fds);
                Ok(i as u32)
            },
            FdList::Number(n) => {
                if n == u32::MAX {
                    *self = FdList::Number(n);
                    return Err(Error::ExcessData);
                }
                *self = FdList::Number(n + 1);
                Ok(n)
            },
        }
    }
}

/// What a serializer holds, as plain values.
pub struct SerializerView {
    /// The place in the whole message of the first byte that is written.
    pub position: nat,
    /// The bytes that were written.
    pub written: Seq<u8>,
    /// The file descriptors that the values written refer to.
    pub fds: FdListView,
    /// The signature of the values that are still to be written.
    pub signature: Seq<u8>,
    /// The byte order of the numbers.
    pub endian: EndianSig,
}

impl SerializerView {
    /// The place in the whole message of the next byte to be written.
    pub open spec fn abs_pos(self) -> nat {
        self.position + self.written.len()
    }

    /// The number of zero bytes that bring the next byte to a multiple of
    /// `alignment`.
    pub open spec fn padding(self, alignment: nat) -> int {
        padding_for(self.abs_pos() as int, alignment as int)
    }
}

/// Context for all serializers, which provides what they share.
#[derive(Debug)]
pub struct SerializerCommon {
    position: usize,
    endian: EndianSig,
    writer: Vec<u8>,
    bytes_written: usize,
    fds: FdList,
    signature: Vec<u8>,
    sig_pos: usize,
}

impl View for SerializerCommon {
    type V = SerializerView;

    closed spec fn view(&self) -> SerializerView {
        SerializerView {
            position: self.position as nat,
            written: self.writer@,
            fds: self.fds@,
            signature: self.signature@.skip(self.sig_pos as int),
            endian: self.endian,
        }
    }
}

impl SerializerCommon {
    /// The count of the bytes written is their number, the place in the
    /// signature is in it, and the place of the next byte is a number that
    /// the machine can hold.
    #[verifier::type_invariant]
    spec fn inv(self) -> bool {
        &&& self.bytes_written == self.writer@.len()
        &&& self.sig_pos <= self.signature@.len()
        &&& self.position + self.bytes_written <= usize::MAX
    }

    /// A serializer for values with the signature `signature`, whose first
    /// byte has the place `position` in the whole message, with numbers in
    /// the byte order `endian`. The file descriptors that the values refer
    /// to are put into `fds`.
    pub fn new(position: usize, endian: EndianSig, signature: Vec<u8>, fds: FdList) -> (ser: Self)
        ensures
            ser@ == (SerializerView {
                position: position as nat,
                written: Seq::empty(),
                fds: fds@,
                signature: signature@,
                endian: endian,
            }),
    {
        assert(signature@.skip(0) =~= signature@);
        SerializerCommon {
            position,
            endian,
            writer: Vec::new(),
            bytes_written: 0,
            fds,
            signature,
            sig_pos: 0,
        }
    }

    /// The place in the whole message of the next byte to be written.
    pub fn abs_pos(&self) -> (pos: usize)
        ensures
            pos == self@.abs_pos(),
    {
        proof {
            use_type_invariant(self);
        }
        self.position + self.bytes_written
    }

    /// The number of bytes written.
    pub fn bytes_written(&self) -> (n: usize)
        ensures
            n == self@.written.len(),
    {
        proof {
            use_type_invariant(self);
        }
        self.bytes_written
    }

    /// The bytes written and the file descriptors that they refer to.
    pub fn finish(self) -> (res: (Vec<u8>, FdList))
        ensures
            res.0@ == self@.written,
            res.1@ == self@.fds,
    {
        (self.writer, self.fds)
    }

    /// Write `buf` and increment the count of the bytes written.
    ///
    /// Gives the number of bytes written, which is the length of `buf`, or
    /// `ExcessData` where the place of the next byte would be greater than
    /// the machine can hold; then nothing changes.
    pub fn write(&mut self, buf: &[u8]) -> (res: Result<usize, Error>)
        ensures
            old(self)@.abs_pos() + buf@.len() <= usize::MAX ==> (res matches Ok(n) && n
                == buf@.len()) && final(self)@ == (SerializerView {
                written: old(self)@.written + buf@,
                ..old(self)@
            }),
            old(self)@.abs_pos() + buf@.len() > usize::MAX ==> (res matches Err(e) && e
                is ExcessData) && final(self)@ == old(self)@,
    {
        proof {
            use_type_invariant(&*self);
        }
        if buf.len() > usize::MAX - self.position - self.bytes_written {
            return Err(Error::ExcessData);
        }
        let SerializerCommon { position, endian, mut writer, bytes_written, fds, signature, sig_pos } =
            self.take_state();
        append_bytes(&mut writer, buf);
        *self = SerializerCommon {
            position,
            endian,
            writer,
            bytes_written: bytes_written + buf.len(),
            fds,
            signature,
            sig_pos,
        };
        Ok(buf.len())
    }

    /// Takes the state out of `self`, which is left as a new serializer until
    /// a state is put back.
    fn take_state(&mut self) -> (state: SerializerCommon)
        ensures
            state == *old(self),
    {
        let mut taken = SerializerCommon::new(0, EndianSig::Little, Vec::new(), FdList::Number(0));
        std::mem::swap(self, &mut taken);
        taken
    }

    /// Writes the zero bytes that bring the next byte to a multiple of
    /// `alignment`, which is not 0, and gives their number.
    ///
    /// Where the place of the next byte would be greater than the machine
    /// can hold, this gives `ExcessData` and nothing changes.
    pub fn add_padding(&mut self, alignment: usize) -> (res: Result<usize, Error>)
        requires
            alignment > 0,
        ensures
            old(self)@.abs_pos() + old(self)@.padding(alignment as nat) <= usize::MAX ==> (
            res matches Ok(n) && n == old(self)@.padding(alignment as nat)) && final(self)@ == (
            SerializerView {
                written: old(self)@.written + zeros(old(self)@.padding(alignment as nat)),
                ..old(self)@
            }) && final(self)@.abs_pos() % (alignment as nat) == 0,
            old(self)@.abs_pos() + old(self)@.padding(alignment as nat) > usize::MAX ==> (
            res matches Err(e) && e is ExcessData) && final(self)@ == old(self)@,
    {
        proof {
            use_type_invariant(&*self);
        }
        let padding = padding_for_n_bytes(self.abs_pos(), alignment);
        if padding > usize::MAX - self.position - self.bytes_written {
            return Err(Error::ExcessData);
        }
        let SerializerCommon { position, endian, mut writer, bytes_written, fds, signature, sig_pos } =
            self.take_state();
        append_zeros(&mut writer, padding);
        *self = SerializerCommon {
            position,
            endian,
            writer,
            bytes_written: bytes_written + padding,
            fds,
            signature,
            sig_pos,
        };
        Ok(padding)
    }

    /// Takes note that a value refers to the file descriptor `fd`, and gives
    /// the number by which the value refers to it: see [`FdList::add_fd`].
    pub fn add_fd(&mut self, fd: i32) -> (res: Result<u32, Error>)
        ensures
            old(self)@.fds.index_for(fd) < u32::MAX ==> (res matches Ok(idx) && idx == old(
                self,
            )@.fds.index_for(fd)) && final(self)@ == (SerializerView {
                fds: old(self)@.fds.with_fd(fd),
                ..old(self)@
            }),
            old(self)@.fds.index_for(fd) >= u32::MAX ==> (res matches Err(e) && e is ExcessData)
                && final(self)@ == old(self)@,
    {
        proof {
            use_type_invariant(&*self);
        }
        let SerializerCommon { position, endian, writer, bytes_written, mut fds, signature, sig_pos } =
            self.take_state();
        let res = fds.add_fd(fd);
        *self = SerializerCommon { position, endian, writer, bytes_written, fds, signature, sig_pos };
        res
    }

    /// Gets ready to write a basic value that is aligned to `alignment`,
    /// which is not 0: goes past the type code of the value in the signature
    /// and writes the padding.
    ///
    /// A signature that has come to its end gives `InvalidField`, and a place
    /// greater than the machine can hold `ExcessData`; then nothing changes.
    pub fn prep_serialize_basic(&mut self, alignment: usize) -> (res: Result<(), Error>)
        requires
            alignment > 0,
        ensures
            old(self)@.signature.len() == 0 ==> (res matches Err(e) && e is InvalidField)
                && final(self)@ == old(self)@,
            old(self)@.signature.len() > 0 && old(self)@.abs_pos() + old(self)@.padding(
                alignment as nat,
            ) > usize::MAX ==> (res matches Err(e) && e is ExcessData) && final(self)@ == old(
                self,
            )@,
            old(self)@.signature.len() > 0 && old(self)@.abs_pos() + old(self)@.padding(
                alignment as nat,
            ) <= usize::MAX ==> res is Ok && final(self)@ == (SerializerView {
                written: old(self)@.written + zeros(old(self)@.padding(alignment as nat)),
                signature: old(self)@.signature.skip(1),
                ..old(self)@
            }),
    {
        proof {
            use_type_invariant(&*self);
        }
        if self.sig_pos >= self.signature.len() {
            return Err(Error::InvalidField);
        }
        match self.add_padding(alignment) {
            Ok(_) => {},
            Err(e) => {
                return Err(e);
            },
        }
        proof {
            use_type_invariant(&*self);
        }
        let ghost before = self@;
        assert(before.signature.len() > 0);
        let SerializerCommon { position, endian, writer, bytes_written, fds, signature, sig_pos } =
            self.take_state();
        let len = signature.len();
        assert(signature@.skip(sig_pos as int).len() > 0);
        assert(sig_pos < len);
        assert(signature@.skip(sig_pos + 1) =~= before.signature.skip(1));
        *self = SerializerCommon {
            position,
            endian,
            writer,
            bytes_written,
            fds,
            signature,
            sig_pos: sig_pos + 1,
        };
        Ok(())
    }

    /// This starts the enum serialization: an enum variant is written as a
    /// structure whose first field is the number of the variant.
    ///
    /// The signature has to go on with a structure. The padding that aligns
    /// a structure, to a multiple of 8, and the number of the variant are
    /// written, and the signature goes on behind the opening of the structure
    /// and the type code of the number. It's up to the caller to do the rest:
    /// serialize the variant payload and go past the end of the structure.
    ///
    /// A signature that does not go on with a structure and a field gives
    /// `InvalidField`, and a place greater than the machine can hold
    /// `ExcessData`; then nothing changes.
    pub fn prep_serialize_enum_variant(&mut self, variant_index: u32) -> (res: Result<(), Error>)
        ensures
            match enum_variant_failure(old(self)@) {
                Some(kind) => (res matches Err(e) && e.spec_kind() == kind) && final(self)@ == old(
                    self,
                )@,
                None => res is Ok && final(self)@ == (SerializerView {
                    written: old(self)@.written + zeros(old(self)@.padding(8)) + u32_to_bytes(
                        old(self)@.endian,
                        variant_index,
                    ),
                    signature: old(self)@.signature.skip(2),
                    ..old(self)@
                }),
            },
    {
        proof {
            use_type_invariant(&*self);
        }
        let ghost before = self@;
        if self.signature.len() - self.sig_pos < 2 || self.signature[self.sig_pos]
            != STRUCT_SIG_START_CHAR {
            return Err(Error::InvalidField);
        }
        let padding = padding_for_n_bytes(self.abs_pos(), 8);
        if padding + 4 > usize::MAX - self.position - self.bytes_written {
            return Err(Error::ExcessData);
        }
        let SerializerCommon { position, endian, mut writer, bytes_written, fds, signature, sig_pos } =
            self.take_state();
        append_zeros(&mut writer, padding);
        write_u32(endian, &mut writer, variant_index);
        proof {
            crate::byte_order::lemma_u32_write_read(endian, variant_index, Seq::empty());
            assert(signature@.skip(sig_pos + 2) =~= before.signature.skip(2));
        }
        *self = SerializerCommon {
            position,
            endian,
            writer,
            bytes_written: bytes_written + padding + 4,
            fds,
            signature,
            sig_pos: sig_pos + 2,
        };
        Ok(())
    }
}

/// Why the serialization of an enum variant cannot start, if it cannot: the
/// signature does not go on with the opening of a structure and one more
/// type code (`InvalidField`), or the padding and the number of the variant
/// would end at a place greater than the machine can hold (`ExcessData`).
pub open spec fn enum_variant_failure(s: SerializerView) -> Option<crate::error::ErrorKind> {
    if s.signature.len() < 2 || s.signature[0] != STRUCT_SIG_START_CHAR {
        Some(crate::error::ErrorKind::InvalidField)
    } else if s.abs_pos() + s.padding(8) + 4 > usize::MAX {
        Some(crate::error::ErrorKind::ExcessData)
    } else {
        None
    }
}

} // verus!
