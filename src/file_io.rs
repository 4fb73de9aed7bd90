//! Positional file I/O behind traits, so that the codec runs over any
//! storage: a native file system, a browser's virtual one, or memory.
use vstd::prelude::*;

verus! {

/// Reads a file at explicit offsets.
pub trait FileReader {
    /// The bytes of the file this reader was opened on.
    spec fn content(&self) -> Seq<u8>;

    /// Total size of the file in bytes.
    fn file_size(&self) -> (r: Result<u64, String>)
        ensures
            r matches Ok(n) ==> n == self.content().len(),
    ;

    /// Reads up to `buf.len()` bytes starting at `offset` into the front of
    /// `buf` and returns how many were read; 0 at or past the end of the file.
    fn read_chunk(&mut self, offset: u64, buf: &mut Vec<u8>) -> (r: Result<usize, String>)
        ensures
            final(self).content() == old(self).content(),
            final(buf)@.len() == old(buf)@.len(),
            r matches Ok(n) ==> n <= old(buf)@.len(),
            r matches Ok(n) ==> (n > 0 ==> offset + n <= old(self).content().len()
                && final(buf)@.take(n as int) == old(self).content().subrange(offset as int, offset + n)),
    ;
}

/// A reader over the bytes of a file held in memory.
pub struct BufferReader {
    bytes: Vec<u8>,
}

impl BufferReader {
    /// A reader over `bytes`.
    pub fn new(bytes: Vec<u8>) -> (r: Self)
        ensures
            r.content() == bytes@,
    {
        BufferReader { bytes }
    }
}

impl FileReader for BufferReader {
    closed spec fn content(&self) -> Seq<u8> {
        self.bytes@
    }

    fn file_size(&self) -> (r: Result<u64, String>) {
        Ok(self.bytes.len() as u64)
    }

    fn read_chunk(&mut self, offset: u64, buf: &mut Vec<u8>) -> (r: Result<usize, String>) {
        let len = self.bytes.len() as u64;
        if offset >= len {
            return Ok(0);
        }
        let rest = (len - offset) as usize;
        let n = if buf.len() < rest { buf.len() } else { rest };
        let start = offset as usize;
        let blen = self.bytes.len();
        let mut k: usize = 0;
        while k < n
            invariant
                0 <= k <= n,
                n <= buf@.len(),
                buf@.len() == old(buf)@.len(),
                start + n <= self.bytes@.len(),
                self.bytes@.len() == len,
                self.bytes@.len() == blen,
                start == offset,
                forall|j: int| 0 <= j < k ==> buf@[j] == self.bytes@[start + j],
            decreases n - k,
        {
            buf.set(k, self.bytes[start + k]);
            k = k + 1;
        }
        assert(buf@.take(n as int) =~= self.bytes@.subrange(offset as int, offset + n));
        Ok(n)
    }
}

/// Writes a file at explicit offsets; gaps between writes are allowed.
pub trait FileWriter {
    /// Writes all of `data` starting at `offset`.
    fn write_chunk(&mut self, offset: usize, data: &[u8]) -> Result<(), String>;

    /// Pushes buffered data to the file.
    fn flush(&mut self) -> Result<(), String>;
}

/// Directory operations.
pub trait DirManager {
    /// Creates `path` and its missing parents; succeeds when it already exists.
    fn create_dir_all(&self, path: &str) -> Result<(), String>;

    /// Whether `path` is an existing directory.
    fn dir_exists(&self, path: &str) -> Result<bool, String>;

    /// Number of regular files directly inside `path`.
    fn count_files(&self, path: &str) -> Result<usize, String>;
}

/// A storage back end: how files are opened and directories managed.
pub trait FileSystem {
    type Reader: FileReader;
    type Writer: FileWriter;
    type Dirs: DirManager;

    /// Opens `path` for reading.
    fn open_reader(&self, path: &str) -> Result<Self::Reader, String>;

    /// Creates or truncates `path` for writing.
    fn open_writer(&self, path: &str) -> Result<Self::Writer, String>;

    /// The directory manager of this storage.
    fn dirs(&self) -> Self::Dirs;
}

/// Opens `path` for reading on `fs`.
pub fn open_file_reader<F: FileSystem>(fs: &F, path: &str) -> Result<F::Reader, String> {
    fs.open_reader(path)
}

/// Creates or truncates `path` for writing on `fs`.
pub fn open_file_writer<F: FileSystem>(fs: &F, path: &str) -> Result<F::Writer, String> {
    fs.open_writer(path)
}

/// The directory manager of `fs`.
pub fn get_dir_manager<F: FileSystem>(fs: &F) -> F::Dirs {
    fs.dirs()
}

} // verus!
