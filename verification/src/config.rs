//! A value that is kept in a file, with a copy of what was last read.
use crate::BytesFormat;
use vstd::prelude::*;

verus! {

/// Why the value could not be read or written.
#[derive(Debug)]
pub enum Error<Format: BytesFormat> {
    Ser(Format::SerError),
    De(Format::DeError),
    IO(std::io::Error),
}

impl<Format: BytesFormat> From<std::io::Error> for Error<Format> {
    fn from(e: std::io::Error) -> (r: Self) {
        Error::IO(e)
    }
}

impl<Format: BytesFormat> vstd::std_specs::convert::FromSpecImpl<std::io::Error> for Error<Format> {
    open spec fn obeys_from_spec() -> bool {
        true
    }

    open spec fn from_spec(e: std::io::Error) -> Self {
        Error::IO(e)
    }
}

/// Keeps a `Type` in `file`, encoded in `format`.
#[derive(Debug)]
pub struct Manager<File, Format, Type> {
    pub file: File,
    pub format: Format,
    /// What the file held when it was last read, unless it was written since.
    pub buffer: Option<Type>,
}

/// What is to be done next to read the value.
pub enum ReadStep<Format: BytesFormat> {
    /// Nothing: the copy is there.
    Cached,
    /// Put the cursor this many bytes from the start of the file.
    Seek(u64),
    /// Read from the cursor to the end of the file.
    ReadToEnd,
    /// Decode the bytes.
    Decode(Vec<u8>),
    Failed(Error<Format>),
}

/// What is to be done next to write the value that is encoded as `bytes`.
pub enum WriteStep<Format: BytesFormat> {
    /// Truncate or extend the file to `len` bytes.
    SetLen { len: u64, bytes: Vec<u8> },
    /// Put the cursor `offset` bytes from the start of the file.
    Seek { offset: u64, bytes: Vec<u8> },
    /// Write all of the bytes at the cursor.
    WriteAll { bytes: Vec<u8> },
    Done(Result<(), Error<Format>>),
}

impl<File, Format: BytesFormat, Type> Manager<File, Format, Type> {
    pub fn new(file: File, format: Format) -> (r: Self)
        ensures
            r.file == file,
            r.format == format,
            r.buffer is None,
            r.spec_read() == ReadStep::<Format>::Seek(0),
    {
        Manager { file, format, buffer: None }
    }

    /// The file is read, from its start, only where there is no copy.
    pub open spec fn spec_read(self) -> ReadStep<Format> {
        if self.buffer is Some {
            ReadStep::Cached
        } else {
            ReadStep::Seek(0)
        }
    }

    /// Begins to read.
    pub fn read(&self) -> (step: ReadStep<Format>)
        ensures
            step == self.spec_read(),
    {
        if self.buffer.is_none() {
            ReadStep::Seek(0)
        } else {
            ReadStep::Cached
        }
    }

    /// Goes on after the cursor was moved.
    pub fn sought(result: Result<(), std::io::Error>) -> (step: ReadStep<Format>)
        ensures
            match result {
                Ok(_) => step == ReadStep::<Format>::ReadToEnd,
                Err(e) => step == ReadStep::<Format>::Failed(Error::IO(e)),
            },
    {
        match result {
            Ok(_) => ReadStep::ReadToEnd,
            Err(e) => ReadStep::Failed(Error::from(e)),
        }
    }

    /// Goes on after the file was read.
    pub fn loaded(result: Result<Vec<u8>, std::io::Error>) -> (step: ReadStep<Format>)
        ensures
            match result {
                Ok(bytes) => step == ReadStep::<Format>::Decode(bytes),
                Err(e) => step == ReadStep::<Format>::Failed(Error::IO(e)),
            },
    {
        match result {
            Ok(bytes) => ReadStep::Decode(bytes),
            Err(e) => ReadStep::Failed(Error::from(e)),
        }
    }

    /// Ends a read of the file with what the decoder made of its bytes, which
    /// becomes the copy.
    pub fn decoded(&mut self, result: Result<Type, Format::DeError>) -> (r: Result<
        (),
        Error<Format>,
    >)
        ensures
            final(self).file == old(self).file,
            final(self).format == old(self).format,
            match result {
                Ok(value) => {
                    &&& r == Ok::<(), Error<Format>>(())
                    &&& final(self).buffer == Some(value)
                    &&& final(self).spec_read() == ReadStep::<Format>::Cached
                },
                Err(e) => r == Err::<(), Error<Format>>(Error::De(e)) && final(self).buffer == old(
                    self).buffer,
            },
    {
        match result {
            Ok(d) => {
                self.buffer = Some(d);
                Ok(())
            },
            Err(e) => Err(Error::De(e)),
        }
    }

    /// The copy.
    pub fn value(&self) -> (r: &Type)
        requires
            self.buffer is Some,
        ensures
            *r == self.buffer->Some_0,
    {
        self.buffer.as_ref().unwrap()
    }

    /// Begins to write: `serialized` is the encoding of the new value. The file
    /// is left alone where the encoding failed.
    pub fn write(serialized: Result<Vec<u8>, Format::SerError>) -> (step: WriteStep<Format>)
        ensures
            match serialized {
                Ok(bytes) => step matches WriteStep::SetLen { len, bytes: b } && len == bytes@.len()
                    && b == bytes,
                Err(e) => step == WriteStep::<Format>::Done(Err(Error::Ser(e))),
            },
    {
        match serialized {
            Ok(bytes) => WriteStep::SetLen { len: bytes.len() as u64, bytes },
            Err(e) => WriteStep::Done(Err(Error::Ser(e))),
        }
    }

    /// What follows `step`, once that succeeded.
    pub open spec fn step_after(step: WriteStep<Format>) -> WriteStep<Format> {
        match step {
            WriteStep::SetLen { len, bytes } => WriteStep::Seek { offset: 0, bytes },
            WriteStep::Seek { offset, bytes } => WriteStep::WriteAll { bytes },
            WriteStep::WriteAll { bytes } => WriteStep::Done(Ok(())),
            WriteStep::Done(result) => WriteStep::Done(result),
        }
    }

    /// Goes on after `step` was performed, with or without success. The copy is dropped once all is
    /// written; a write that fails on the way leaves it as it was.
    pub fn written(
        &mut self,
        step: WriteStep<Format>,
        result: Result<(), std::io::Error>,
    ) -> (next: WriteStep<Format>)
        ensures
            final(self).file == old(self).file,
            final(self).format == old(self).format,
            match result {
                Ok(_) => {
                    &&& next == Self::step_after(step)
                    &&& final(self).buffer == (if step is WriteAll {
                        None
                    } else {
                        old(self).buffer
                    })
                    &&& step is WriteAll ==> final(self).spec_read() == ReadStep::<Format>::Seek(0)
                },
                Err(e) => {
                    &&& next == WriteStep::<Format>::Done(Err(Error::IO(e)))
                    &&& final(self).buffer == old(self).buffer
                },
            },
    {
        if let Err(e) = result {
            return WriteStep::Done(Err(Error::from(e)));
        }
        match step {
            WriteStep::SetLen { len: _, bytes } => WriteStep::Seek { offset: 0, bytes },
            WriteStep::Seek { offset: _, bytes } => WriteStep::WriteAll { bytes },
            WriteStep::WriteAll { bytes: _ } => {
                self.buffer = None;
                WriteStep::Done(Ok(()))
            },
            WriteStep::Done(result) => WriteStep::Done(result),
        }
    }
}

/// A file as the steps see it: its bytes and the position of the cursor.
pub struct FileView {
    pub bytes: Seq<u8>,
    pub cursor: int,
}

impl FileView {
    /// The file after a step of a write. Bytes that a file is extended by, or
    /// that a write leaves out, are zero.
    pub open spec fn after<Format: BytesFormat>(self, step: WriteStep<Format>) -> FileView {
        match step {
            WriteStep::SetLen { len, bytes } => FileView {
                bytes: Seq::new(
                    len as nat,
                    |i: int|
                        if i < self.bytes.len() {
                            self.bytes[i]
                        } else {
                            0
                        },
                ),
                cursor: self.cursor,
            },
            WriteStep::Seek { offset, bytes } => FileView {
                bytes: self.bytes,
                cursor: offset as int,
            },
            WriteStep::WriteAll { bytes } => {
                let end = self.cursor + bytes@.len();
                FileView {
                    bytes: Seq::new(
                        if end < self.bytes.len() {
                            self.bytes.len()
                        } else {
                            end as nat
                        },
                        |i: int|
                            if self.cursor <= i < end {
                                bytes@[i - self.cursor]
                            } else if i < self.bytes.len() {
                                self.bytes[i]
                            } else {
                                0
                            },
                    ),
                    cursor: end,
                }
            },
            WriteStep::Done(_) => self,
        }
    }

    /// What a read to the end delivers once the cursor is at `offset`.
    pub open spec fn read_from(self, offset: int) -> Seq<u8> {
        self.bytes.skip(offset)
    }
}

/// A write that runs through leaves exactly the encoding in the file, whatever
/// the file held and wherever its cursor stood, and the next read of the file
/// decodes exactly those bytes.
pub proof fn law_read_gives_back_write<File, Format: BytesFormat, Type>(
    file: FileView,
    step: WriteStep<Format>,
    encoding: Vec<u8>,
)
    requires
        file.cursor >= 0,
        step matches WriteStep::SetLen { len, bytes } && len == encoding@.len() && bytes
            == encoding,
    ensures
        ({
            let seek = Manager::<File, Format, Type>::step_after(step);
            let write = Manager::<File, Format, Type>::step_after(seek);
            let written = file.after(step).after(seek).after(write);
            &&& Manager::<File, Format, Type>::step_after(write) == WriteStep::<Format>::Done(
                Ok(()),
            )
            &&& written.bytes == encoding@
            &&& written.read_from(0) == encoding@
        }),
{
    let seek = Manager::<File, Format, Type>::step_after(step);
    let write = Manager::<File, Format, Type>::step_after(seek);
    let written = file.after(step).after(seek).after(write);
    assert(written.bytes =~= encoding@);
    assert(written.read_from(0) =~= encoding@);
}

/// A new manager has no copy, so the first read goes to the start of the file.
/// From then on a read goes to the file exactly where there is no copy.
pub proof fn law_file_is_read_without_a_copy<File, Format: BytesFormat, Type>(
    file: File,
    format: Format,
    fresh: Manager<File, Format, Type>,
    first: ReadStep<Format>,
    manager: Manager<File, Format, Type>,
    step: ReadStep<Format>,
)
    requires
        call_ensures(Manager::<File, Format, Type>::new, (file, format), fresh),
        call_ensures(Manager::<File, Format, Type>::read, (&fresh,), first),
        call_ensures(Manager::<File, Format, Type>::read, (&manager,), step),
    ensures
        fresh.file == file,
        fresh.format == format,
        first == ReadStep::<Format>::Seek(0),
        manager.buffer is None ==> step == ReadStep::<Format>::Seek(0),
        manager.buffer is Some ==> step == ReadStep::<Format>::Cached,
{
}

/// All bytes of the file are read and just those are decoded; whatever fails
/// before that ends the read with just that error.
pub proof fn law_read_decodes_what_was_loaded<File, Format: BytesFormat, Type>(
    e: std::io::Error,
    bytes: Vec<u8>,
    on_sought: ReadStep<Format>,
    on_not_sought: ReadStep<Format>,
    on_loaded: ReadStep<Format>,
    on_not_loaded: ReadStep<Format>,
)
    requires
        call_ensures(Manager::<File, Format, Type>::sought, (Ok(()),), on_sought),
        call_ensures(Manager::<File, Format, Type>::sought, (Err(e),), on_not_sought),
        call_ensures(Manager::<File, Format, Type>::loaded, (Ok(bytes),), on_loaded),
        call_ensures(Manager::<File, Format, Type>::loaded, (Err(e),), on_not_loaded),
    ensures
        on_sought == ReadStep::<Format>::ReadToEnd,
        on_not_sought == ReadStep::<Format>::Failed(Error::IO(e)),
        on_loaded == ReadStep::<Format>::Decode(bytes),
        on_not_loaded == ReadStep::<Format>::Failed(Error::IO(e)),
{
}

/// Whatever copy there was, a value that was decoded is what the manager hands
/// out from then on, and it is not read from the file again.
pub proof fn law_decoded_value_is_handed_out<File, Format: BytesFormat, Type>(
    manager: &mut Manager<File, Format, Type>,
    value: Type,
    result: Result<(), Error<Format>>,
    step: ReadStep<Format>,
    handed_out: &Type,
)
    requires
        call_ensures(Manager::<File, Format, Type>::decoded, (manager, Ok(value)), result),
        call_ensures(Manager::<File, Format, Type>::read, (&*final(manager),), step),
        call_ensures(Manager::<File, Format, Type>::value, (&*final(manager),), handed_out),
    ensures
        result == Ok::<(), Error<Format>>(()),
        step == ReadStep::<Format>::Cached,
        *handed_out == value,
        final(manager).file == old(manager).file,
        final(manager).format == old(manager).format,
{
}

/// Bytes that could not be decoded end the read with the decoder's error and
/// leave the manager as it was.
pub proof fn law_undecodable_file_changes_nothing<File, Format: BytesFormat, Type>(
    manager: &mut Manager<File, Format, Type>,
    e: Format::DeError,
    result: Result<(), Error<Format>>,
)
    requires
        call_ensures(Manager::<File, Format, Type>::decoded, (manager, Err(e)), result),
    ensures
        result == Err::<(), Error<Format>>(Error::De(e)),
        *final(manager) == *old(manager),
{
}

/// A write sets the file to the length of the encoding, goes to its start and
/// writes the whole encoding there, in this order, and then it is done. That
/// leaves exactly the encoding in the file, whatever the file held. The copy is
/// dropped with the last step, not before, so the next read goes to the file.
pub proof fn law_write_leaves_the_encoding<File, Format: BytesFormat, Type>(
    file: FileView,
    encoding: Vec<u8>,
    manager1: &mut Manager<File, Format, Type>,
    manager2: &mut Manager<File, Format, Type>,
    manager3: &mut Manager<File, Format, Type>,
    first: WriteStep<Format>,
    second: WriteStep<Format>,
    third: WriteStep<Format>,
    last: WriteStep<Format>,
    next_read: ReadStep<Format>,
)
    requires
        file.cursor >= 0,
        call_ensures(Manager::<File, Format, Type>::write, (Ok(encoding),), first),
        call_ensures(
            Manager::<File, Format, Type>::written,
            (manager1, first, Ok(())),
            second,
        ),
        *manager2 == *final(manager1),
        call_ensures(
            Manager::<File, Format, Type>::written,
            (manager2, second, Ok(())),
            third,
        ),
        *manager3 == *final(manager2),
        call_ensures(
            Manager::<File, Format, Type>::written,
            (manager3, third, Ok(())),
            last,
        ),
        call_ensures(Manager::<File, Format, Type>::read, (&*final(manager3),), next_read),
    ensures
        first matches WriteStep::SetLen { len, bytes } && len == encoding@.len() && bytes@
            == encoding@,
        second matches WriteStep::Seek { offset, bytes } && offset == 0 && bytes@ == encoding@,
        third matches WriteStep::WriteAll { bytes } && bytes@ == encoding@,
        last == WriteStep::<Format>::Done(Ok(())),
        file.after(first).after(second).after(third).bytes == encoding@,
        final(manager2).buffer == old(manager1).buffer,
        final(manager3).buffer is None,
        final(manager3).file == old(manager1).file,
        final(manager3).format == old(manager1).format,
        next_read == ReadStep::<Format>::Seek(0),
{
    law_read_gives_back_write::<File, Format, Type>(file, first, encoding);
}

/// Whichever step of a write fails, the write ends there with just that error
/// and the manager stays as it was. An encoding that failed is not written at
/// all.
pub proof fn law_failed_write_changes_nothing<File, Format: BytesFormat, Type>(
    manager: &mut Manager<File, Format, Type>,
    step: WriteStep<Format>,
    e: std::io::Error,
    next: WriteStep<Format>,
    unencodable: Format::SerError,
    on_encoding: WriteStep<Format>,
)
    requires
        call_ensures(Manager::<File, Format, Type>::written, (manager, step, Err(e)), next),
        call_ensures(Manager::<File, Format, Type>::write, (Err(unencodable),), on_encoding),
    ensures
        next == WriteStep::<Format>::Done(Err(Error::IO(e))),
        *final(manager) == *old(manager),
        on_encoding == WriteStep::<Format>::Done(Err(Error::Ser(unencodable))),
{
}

/// What is done stays done: nothing follows the end of a write, and nothing
/// changes.
pub proof fn law_done_stays_done<File, Format: BytesFormat, Type>(
    manager: &mut Manager<File, Format, Type>,
    result: Result<(), Error<Format>>,
    next: WriteStep<Format>,
)
    requires
        call_ensures(
            Manager::<File, Format, Type>::written,
            (manager, WriteStep::Done(result), Ok(())),
            next,
        ),
    ensures
        next == WriteStep::<Format>::Done(result),
        *final(manager) == *old(manager),
{
}

} // verus!
