pub use coords::Coord;
pub use resolutions::Resolution;
pub use tiles::Tile;

pub mod coords;
pub mod resolutions;
pub mod tiles;

use vstd::prelude::*;

verus! {

/// The error kinds that coordinate handling, backend access and tile
/// lookups can surface.
#[derive(Debug, Clone, Copy, PartialEq, Eq)]
pub enum Error {
    /// An operation was attempted on a backend with no open handle.
    NotFound,
    /// A low-level read operation failed.
    ReadError,
    /// A coordinate could not be parsed from text.
    ParseLatLong,
    /// The named blob does not exist or cannot be opened.
    FileNotFound,
    /// The blob's length does not match the expected length, or a
    /// read could not be satisfied because of a size or seek failure.
    Filesize,
    /// A backend-level read failure distinct from size or seek failures.
    FileRead,
    /// The computed byte offset lies outside the expected file length.
    IndexOutOfBounds,
    /// The decoded sample equals the "no data" sentinel.
    InvalidData,
}

/// HgtReader is a trait for reading SRTM elevation data.
/// It provides the necessary methods for opening a file,
/// checking its size, reading data at a given position,
/// and closing the file.
///
/// The two spec functions model the backend's abstract state: the
/// name of the currently open blob, if any, and the bytes of that
/// blob. A concrete backend may obtain the bytes from a filesystem,
/// raw system calls, a network or flash; the lookup engine relies
/// only on the contracts below.
pub trait HgtReader: Sized {
    /// The name of the currently open blob, if one is open. The
    /// default stands for a backend that never opens anything; a
    /// verified backend overrides it with its own model.
    open spec fn open_name(&self) -> Option<Seq<char>> {
        None
    }

    /// The bytes of the currently open blob. The default stands for a
    /// backend that never opens anything; a verified backend overrides
    /// it with its own model.
    open spec fn contents(&self) -> Seq<u8> {
        Seq::empty()
    }

    /// Opens a file with the given name.
    /// Returns `Ok(())` when the file is successfully opened,
    /// otherwise returns an `Error`.
    ///
    /// Opening the name that is already open is a no-op returning
    /// success; opening a different name implicitly closes the
    /// previous blob first, and a failed open leaves no handle open.
    fn open_hgt_file(&mut self, file_name: &str) -> (r: Result<(), Error>)
        ensures
            r is Ok ==> final(self).open_name() == Some(file_name@),
            r is Err ==> r == Err::<(), Error>(Error::FileNotFound)
                && final(self).open_name() is None,
            old(self).open_name() == Some(file_name@) ==> r is Ok
                && final(self).contents() == old(self).contents(),
    ;

    /// Checks the size of the file.
    /// The expected length of the file is given in bytes.
    /// Returns `Ok(())` if the file size matches the expected length,
    /// otherwise returns an `Error`: `Error::NotFound` when no blob is
    /// open, `Error::Filesize` when the length differs.
    fn check_hgt_file(&self, expt_len: u64) -> (r: Result<(), Error>)
        ensures
            r is Ok <==> self.open_name() is Some && self.contents().len() == expt_len,
            self.open_name() is None ==> r == Err::<(), Error>(Error::NotFound),
            self.open_name() is Some && self.contents().len() != expt_len ==> r == Err::<
                (),
                Error,
            >(Error::Filesize),
    ;

    /// Reads data from the file at the given position.
    /// The position is given in bytes.
    /// The data is read into the provided buffer.
    /// The buffer must be of size 2.
    /// Returns `Ok(())` if the data is successfully read,
    /// otherwise returns an `Error`: `Error::NotFound` when no blob is
    /// open, and one of `Error::ReadError`, `Error::FileRead` or
    /// `Error::Filesize` when the read could not be satisfied.
    fn read_hgt_data(&mut self, pos: u64, buffer: &mut [u8; 2]) -> (r: Result<(), Error>)
        ensures
            final(self).open_name() == old(self).open_name(),
            final(self).contents() == old(self).contents(),
            old(self).open_name() is None ==> r == Err::<(), Error>(Error::NotFound),
            old(self).open_name() is Some ==> r != Err::<(), Error>(Error::NotFound),
            r is Ok ==> pos + 2 <= old(self).contents().len()
                && final(buffer)@ == old(self).contents().subrange(pos as int, pos as int + 2),
            r is Err ==> (r == Err::<(), Error>(Error::NotFound)
                || r == Err::<(), Error>(Error::ReadError)
                || r == Err::<(), Error>(Error::FileRead)
                || r == Err::<(), Error>(Error::Filesize)),
    ;

    /// Closes the file.
    /// Returns `Ok(())` if the file is successfully closed; closing
    /// an already closed backend returns `Error::NotFound`.
    fn close_hgt_file(&mut self) -> (r: Result<(), Error>)
        ensures
            final(self).open_name() is None,
            r is Ok <==> old(self).open_name() is Some,
            r is Err ==> r == Err::<(), Error>(Error::NotFound),
    ;
}

} // verus!
