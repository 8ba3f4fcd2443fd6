//! An array whose length is fixed when it is made.

use crate::error::{failed, Error, ErrorCode};
use vstd::layout::{align_of, size_of};
use vstd::prelude::*;

verus! {

/// The length is one that an array can have: not zero, and below the
/// largest signed 32-bit number.
pub open spec fn valid_length(len: usize) -> bool {
    0 < len < i32::MAX
}

/// An array of `len` elements of `T` can be laid out in memory: its size,
/// rounded up to the alignment of `T`, does not exceed the largest signed
/// word.
pub open spec fn layout_fits<T>(len: usize) -> bool {
    len * size_of::<T>() <= isize::MAX - (align_of::<T>() - 1)
}

/// The memory of `len` elements of `size` bytes each that starts at
/// `address` wraps around the end of the address space.
pub open spec fn region_wraps(address: usize, len: usize, size: usize) -> bool {
    address.wrapping_add(len.wrapping_mul(size)) < address
}

/// Memory that is handed in from elsewhere can back an array of `len`
/// elements of `size` bytes each: the length is one that an array can have,
/// the memory does not wrap around the end of the address space, and it does
/// not start at the null address.
pub open spec fn valid_region(address: usize, len: usize, size: usize) -> bool {
    valid_length(len) && !region_wraps(address, len, size) && address != 0
}

/// Checks that memory handed in from elsewhere can back an array. Memory
/// that cannot is an invalid argument.
pub fn check_region(address: usize, len: usize, size: usize) -> (result: Result<(), Error>)
    ensures
        valid_region(address, len, size) ==> result is Ok,
        !valid_region(address, len, size) ==> failed(result, ErrorCode::InvalidArgument),
{
    if len == 0 || len >= i32::MAX as usize {
        return Err(Error::new(ErrorCode::InvalidArgument, "invalid length"));
    }
    if address.wrapping_add(len.wrapping_mul(size)) < address {
        return Err(Error::new(ErrorCode::InvalidArgument, "wrapping memory region"));
    }
    if address == 0 {
        return Err(Error::new(ErrorCode::InvalidArgument, "invalid pointer"));
    }
    Ok(())
}

/// An array whose length is fixed when it is made.
#[derive(Debug)]
pub struct RawArray<T> {
    storage: Vec<T>,
}

impl<T> View for RawArray<T> {
    type V = Seq<T>;

    /// The elements of the array.
    closed spec fn view(&self) -> Seq<T> {
        self.storage@
    }
}

impl<T> RawArray<T> {
    /// The length of the array is one that an array can have.
    #[verifier::type_invariant]
    closed spec fn wf(&self) -> bool {
        valid_length(self.storage.len())
    }

    /// Returns the number of elements.
    pub fn len(&self) -> (len: usize)
        ensures
            len == self@.len(),
            valid_length(len),
    {
        proof {
            use_type_invariant(self);
        }
        self.storage.len()
    }

    /// Returns the element at the given place, if the array has one there.
    pub fn get(&self, index: usize) -> (element: Option<&T>)
        ensures
            index < self@.len() ==> element == Some(&self@[index as int]),
            index >= self@.len() ==> element is None,
    {
        if index < self.storage.len() {
            Some(&self.storage[index])
        } else {
            None
        }
    }

    /// Replaces the element at the given place. A place beyond the end of
    /// the array is an invalid argument, and leaves the array as it is.
    pub fn set(&mut self, index: usize, value: T) -> (result: Result<(), Error>)
        ensures
            index < old(self)@.len() ==> result is Ok && final(self)@ == old(self)@.update(
                index as int,
                value,
            ),
            index >= old(self)@.len() ==> failed(result, ErrorCode::InvalidArgument) && final(self)@
                == old(self)@,
    {
        proof {
            use_type_invariant(&*self);
        }
        if index < self.storage.len() {
            self.storage[index] = value;
            Ok(())
        } else {
            Err(Error::new(ErrorCode::InvalidArgument, "index out of bounds"))
        }
    }

    /// Returns the elements as a slice.
    pub fn as_slice(&self) -> (slice: &[T])
        ensures
            slice@ == self@,
    {
        self.storage.as_slice()
    }
}

impl<T: Copy> RawArray<T> {
    /// Makes an array of `len` elements, each of them `fill`.
    ///
    /// A length of zero, or one that does not fit in a signed 32-bit number,
    /// is an invalid argument, and so is one whose array cannot be laid out
    /// in memory. Where the memory cannot be had, the kernel is out of
    /// memory.
    pub fn new(len: usize, fill: T) -> (array: Result<RawArray<T>, Error>)
        ensures
            !valid_length(len) || !layout_fits::<T>(len) ==> failed(
                array,
                ErrorCode::InvalidArgument,
            ),
            valid_length(len) && layout_fits::<T>(len) ==> (array matches Ok(made) && made@
                == Seq::new(len as nat, |index: int| fill)) || failed(array, ErrorCode::OutOfMemory),
    {
        if len == 0 || len >= i32::MAX as usize {
            return Err(Error::new(ErrorCode::InvalidArgument, "invalid length"));
        }
        let size = core::mem::size_of::<T>();
        let align = core::mem::align_of::<T>();
        proof {
            broadcast use vstd::layout::align_nonzero;
            assert(align_of::<T>() > 0);
        }
        let slack = align - 1;
        let fits = match len.checked_mul(size) {
            Some(bytes) => slack <= isize::MAX as usize && bytes <= isize::MAX as usize - slack,
            None => false,
        };
        if !fits {
            return Err(Error::new(ErrorCode::InvalidArgument, "invalid layout"));
        }
        let mut storage: Vec<T> = Vec::new();
        if storage.try_reserve(len).is_err() {
            return Err(Error::new(ErrorCode::OutOfMemory, "out of memory"));
        }
        let mut index: usize = 0;
        while index < len
            invariant
                index <= len,
                storage@ == Seq::new(index as nat, |at: int| fill),
            decreases len - index,
        {
            storage.push(fill);
            index = index + 1;
            assert(storage@ =~= Seq::new(index as nat, |at: int| fill));
        }
        Ok(RawArray { storage })
    }
}

} // verus!
