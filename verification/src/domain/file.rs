use vstd::prelude::*;
use vstd::string::*;
use vstd::utf8::*;
use crate::text::{buffer_text, buffer_text_bytes, buffer_text_chars, name_buffer, padded_prefix};

verus! {

/// A directory entry representing either a file or a directory.
#[derive(Debug, Clone)]
pub struct FileEntry {
    /// File or directory name, stored as UTF-8 bytes in a fixed 128-byte array.
    pub name: [u8; 128],
    /// Size in bytes; 0 for directories.
    pub size: usize,
    pub is_dir: bool,
}

impl FileEntry {
    /// Create a new file entry. `name_str` is truncated to 127 bytes if longer.
    pub fn new(name_str: &str, size: usize, is_dir: bool) -> (r: Self)
        ensures
            r.name@ == padded_prefix(name_str.spec_bytes(), 127, 128),
            r.size == size,
            r.is_dir == is_dir,
    {
        let name = name_buffer::<128>(name_str);
        FileEntry { name, size, is_dir }
    }

    /// Returns the entry name as a string slice (trimming trailing nulls).
    pub fn name_str(&self) -> (r: &str)
        ensures
            valid_utf8(buffer_text_bytes(self.name@)) ==> r.spec_bytes() == buffer_text_bytes(
                self.name@,
            ),
            !valid_utf8(buffer_text_bytes(self.name@)) ==> r@ == "<invalid>"@,
            r@ == buffer_text_chars(self.name@),
    {
        buffer_text(&self.name)
    }
}

} // verus!
