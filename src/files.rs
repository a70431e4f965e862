//! The file registry: in-memory byte streams selected by integer handles.
//!
//! A stream holds the bytes that can still be read from it and the bytes
//! written to it. Moving bytes between streams and the outside world is left
//! to the embedding program.
use vstd::prelude::*;
use crate::ops::UWord;

verus! {

#[derive(Clone, Copy, Debug, PartialEq, Eq, Structural)]
pub enum FilesError {
    /// The handle names no open stream.
    UnknownHandle(UWord),
    /// No stream has been selected as the current one.
    NoCurrentFile,
}

pub struct Stream {
    input: Vec<u8>,
    position: usize,
    output: Vec<u8>,
}

impl Stream {
    /// Bytes not yet read.
    pub closed spec fn unread(&self) -> Seq<u8> {
        self.input@.subrange(self.position as int, self.input@.len() as int)
    }

    /// Bytes written so far.
    pub closed spec fn written(&self) -> Seq<u8> {
        self.output@
    }

    pub closed spec fn wf(&self) -> bool {
        self.position <= self.input@.len()
    }

    /// A stream with nothing to read.
    pub fn new() -> (s: Stream)
        ensures
            s.wf(),
            s.unread() == Seq::<u8>::empty(),
            s.written() == Seq::<u8>::empty(),
    {
        let s = Stream { input: Vec::new(), position: 0, output: Vec::new() };
        assert(s.unread() =~= Seq::<u8>::empty());
        s
    }

    /// A stream from which `input` will be read.
    pub fn from_input(input: Vec<u8>) -> (s: Stream)
        ensures
            s.wf(),
            s.unread() == input@,
            s.written() == Seq::<u8>::empty(),
    {
        let s = Stream { input, position: 0, output: Vec::new() };
        assert(s.unread() =~= input@);
        s
    }

    /// The bytes written to this stream.
    pub fn output(&self) -> (r: &Vec<u8>)
        ensures
            r@ == self.written(),
    {
        &self.output
    }

    /// Takes the next unread byte, or `None` at the end.
    fn read_byte(&mut self) -> (r: Option<u8>)
        requires
            old(self).wf(),
        ensures
            final(self).wf(),
            final(self).written() == old(self).written(),
            old(self).unread().len() == 0 ==> r.is_none() && final(self).unread() == old(self).unread(),
            old(self).unread().len() > 0 ==> r == Some(old(self).unread()[0]) && final(self).unread()
                == old(self).unread().drop_first(),
    {
        if self.position < self.input.len() {
            let b = self.input[self.position];
            self.position = self.position + 1;
            assert(self.unread() =~= old(self).unread().drop_first());
            Some(b)
        } else {
            None
        }
    }

    fn write_byte(&mut self, b: u8)
        requires
            old(self).wf(),
        ensures
            final(self).wf(),
            final(self).unread() == old(self).unread(),
            final(self).written() == old(self).written().push(b),
    {
        self.output.push(b);
    }
}

/// What a stream holds: the bytes still to be read and the bytes written.
pub type StreamModel = (Seq<u8>, Seq<u8>);

/// The stream registry by handle; a closed handle holds `None`.
pub type FilesModel = Seq<Option<StreamModel>>;

pub open spec fn stream_model(s: Stream) -> StreamModel {
    (s.unread(), s.written())
}

/// The handle that reading, writing and flushing act on, or why there is none.
pub open spec fn selected_handle(files: FilesModel, current: Option<UWord>) -> Result<UWord, FilesError> {
    match current {
        None => Err(FilesError::NoCurrentFile),
        Some(h) => if h < files.len() && files[h as int].is_some() {
            Ok(h)
        } else {
            Err(FilesError::UnknownHandle(h))
        },
    }
}

/// The next byte of stream `h`, or `None` at its end.
pub open spec fn next_byte(files: FilesModel, h: UWord) -> Option<u8> {
    let unread = files[h as int].unwrap().0;
    if unread.len() == 0 {
        None
    } else {
        Some(unread[0])
    }
}

/// The registry after one byte is read from stream `h`.
pub open spec fn after_read(files: FilesModel, h: UWord) -> FilesModel {
    let (unread, written) = files[h as int].unwrap();
    if unread.len() == 0 {
        files
    } else {
        files.update(h as int, Some((unread.drop_first(), written)))
    }
}

/// The registry after `b` is written to stream `h`.
pub open spec fn after_write(files: FilesModel, h: UWord, b: u8) -> FilesModel {
    let (unread, written) = files[h as int].unwrap();
    files.update(h as int, Some((unread, written.push(b))))
}

pub struct Files {
    streams: Vec<Option<Stream>>,
    current: Option<UWord>,
}

impl Files {
    pub closed spec fn current_handle(&self) -> Option<UWord> {
        self.current
    }

    pub closed spec fn wf(&self) -> bool {
        forall|i: int| 0 <= i < self.streams@.len() && #[trigger] self.streams@[i].is_some()
            ==> self.streams@[i].unwrap().wf()
    }

    pub closed spec fn model(&self) -> FilesModel {
        self.streams@.map_values(|o: Option<Stream>| match o {
            Some(s) => Some(stream_model(s)),
            None => None,
        })
    }

    pub open spec fn is_open(&self, h: UWord) -> bool {
        h < self.model().len() && self.model()[h as int].is_some()
    }

    /// The handle that `read`, `write` and `flush` act on, or why there is none.
    pub open spec fn selected(&self) -> Result<UWord, FilesError> {
        match self.current_handle() {
            None => Err(FilesError::NoCurrentFile),
            Some(h) => if self.is_open(h) {
                Ok(h)
            } else {
                Err(FilesError::UnknownHandle(h))
            },
        }
    }

    pub fn new() -> (f: Files)
        ensures
            f.wf(),
            f.model() == Seq::<Option<StreamModel>>::empty(),
            f.current_handle().is_none(),
    {
        let f = Files { streams: Vec::new(), current: None };
        assert(f.model() =~= Seq::<Option<StreamModel>>::empty());
        f
    }

    /// Registers `stream` under a new handle and returns the handle.
    pub fn open(&mut self, stream: Stream) -> (r: Result<UWord, FilesError>)
        requires
            old(self).wf(),
            stream.wf(),
        ensures
            final(self).wf(),
            r == Ok::<UWord, FilesError>(old(self).model().len() as UWord),
            final(self).model() == old(self).model().push(Some(stream_model(stream))),
            final(self).current_handle() == old(self).current_handle(),
    {
        let h = self.streams.len() as UWord;
        self.streams.push(Some(stream));
        assert(self.model() =~= old(self).model().push(Some(stream_model(stream))));
        Ok(h)
    }

    /// Unregisters the stream under `h` and hands it back.
    pub fn close(&mut self, h: UWord) -> (r: Result<Stream, FilesError>)
        requires
            old(self).wf(),
        ensures
            final(self).wf(),
            final(self).current_handle() == old(self).current_handle(),
            old(self).is_open(h) ==> r.is_ok() && Some(stream_model(r.unwrap())) == old(self).model()[h as int]
                && final(self).model() == old(self).model().update(h as int, None),
            !old(self).is_open(h) ==> r == Err::<Stream, FilesError>(FilesError::UnknownHandle(h))
                && final(self).model() == old(self).model(),
    {
        if h >= self.streams.len() as UWord {
            return Err(FilesError::UnknownHandle(h));
        }
        let i = h as usize;
        let slot = self.streams.remove(i);
        self.streams.insert(i, None);
        proof {
            assert(self.streams@ =~= old(self).streams@.update(h as int, None));
            assert(self.model() =~= old(self).model().update(h as int, None));
        }
        match slot {
            Some(s) => Ok(s),
            None => {
                self.streams.remove(i);
                self.streams.insert(i, None);
                assert(self.streams@ =~= old(self).streams@);
                assert(self.model() =~= old(self).model());
                Err(FilesError::UnknownHandle(h))
            },
        }
    }

    /// Makes `h` the current stream.
    pub fn set_current(&mut self, h: UWord) -> (r: Result<(), FilesError>)
        requires
            old(self).wf(),
        ensures
            final(self).wf(),
            final(self).model() == old(self).model(),
            old(self).is_open(h) ==> r == Ok::<(), FilesError>(()) && final(self).current_handle()
                == Some(h),
            !old(self).is_open(h) ==> r == Err::<(), FilesError>(FilesError::UnknownHandle(h))
                && final(self).current_handle() == old(self).current_handle(),
    {
        if h < self.streams.len() as UWord && self.streams[h as usize].is_some() {
            self.current = Some(h);
            Ok(())
        } else {
            Err(FilesError::UnknownHandle(h))
        }
    }

    /// The current handle.
    pub fn current(&self) -> (r: Result<UWord, FilesError>)
        ensures
            r == (match self.current_handle() {
                Some(h) => Ok::<UWord, FilesError>(h),
                None => Err(FilesError::NoCurrentFile),
            }),
    {
        match self.current {
            Some(h) => Ok(h),
            None => Err(FilesError::NoCurrentFile),
        }
    }

    fn selected_index(&self) -> (r: Result<usize, FilesError>)
        ensures
            match self.selected() {
                Ok(h) => r.is_ok() && r.unwrap() as int == h as int && self.is_open(h),
                Err(e) => r == Err::<usize, FilesError>(e),
            },
    {
        match self.current {
            None => Err(FilesError::NoCurrentFile),
            Some(h) => if h < self.streams.len() as UWord && self.streams[h as usize].is_some() {
                Ok(h as usize)
            } else {
                Err(FilesError::UnknownHandle(h))
            },
        }
    }

    /// Reads one byte from the current stream; `None` at its end.
    pub fn read(&mut self) -> (r: Result<Option<u8>, FilesError>)
        requires
            old(self).wf(),
        ensures
            final(self).wf(),
            final(self).current_handle() == old(self).current_handle(),
            match selected_handle(old(self).model(), old(self).current_handle()) {
                Err(e) => r == Err::<Option<u8>, FilesError>(e) && final(self).model() == old(self).model(),
                Ok(h) => r == Ok::<Option<u8>, FilesError>(next_byte(old(self).model(), h))
                    && final(self).model() == after_read(old(self).model(), h),
            },
    {
        proof {
            self.lemma_selected();
        }
        let i = self.selected_index()?;
        assert(self.streams@[i as int].is_some());
        let slot = self.streams.remove(i);
        let mut s = slot.unwrap();
        let b = s.read_byte();
        self.streams.insert(i, Some(s));
        proof {
            let m = old(self).model();
            if b.is_some() {
                assert(self.model() =~= m.update(i as int, Some((m[i as int].unwrap().0.drop_first(), m[i as int].unwrap().1))));
            } else {
                assert(self.model() =~= m);
            }
        }
        Ok(b)
    }

    /// Writes one byte to the current stream.
    pub fn write(&mut self, b: u8) -> (r: Result<(), FilesError>)
        requires
            old(self).wf(),
        ensures
            final(self).wf(),
            final(self).current_handle() == old(self).current_handle(),
            match selected_handle(old(self).model(), old(self).current_handle()) {
                Err(e) => r == Err::<(), FilesError>(e) && final(self).model() == old(self).model(),
                Ok(h) => r == Ok::<(), FilesError>(()) && final(self).model() == after_write(old(self).model(), h, b),
            },
    {
        proof {
            self.lemma_selected();
        }
        let i = self.selected_index()?;
        assert(self.streams@[i as int].is_some());
        let slot = self.streams.remove(i);
        let mut s = slot.unwrap();
        s.write_byte(b);
        self.streams.insert(i, Some(s));
        proof {
            assert(self.model() =~= after_write(old(self).model(), i as UWord, b));
        }
        Ok(())
    }

    proof fn lemma_selected(&self)
        ensures
            self.selected() == selected_handle(self.model(), self.current_handle()),
    {
    }

    /// Flushes the current stream: it only has to be open, since written
    /// bytes are held until the embedding program takes them.
    pub fn flush(&self) -> (r: Result<(), FilesError>)
        ensures
            r == (match selected_handle(self.model(), self.current_handle()) {
                Ok(_) => Ok::<(), FilesError>(()),
                Err(e) => Err(e),
            }),
    {
        proof {
            self.lemma_selected();
        }
        self.selected_index()?;
        Ok(())
    }
}

} // verus!
