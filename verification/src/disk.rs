//! Creating a sparse raw disk image: how large it is to be, and what becomes of
//! the attempt.
use crate::text;
use vstd::prelude::*;

verus! {

#[derive(Debug, Clone, PartialEq, Eq)]
pub enum DiskError {
    InvalidSize(String),
    BadAlignment(u64),
    Exists(String),
    Io(String),
}

impl DiskError {
    pub open spec fn spec_message(self) -> Seq<char> {
        match self {
            DiskError::InvalidSize(size) => "invalid size '"@ + size@
                + "': use e.g. 32G, 512M or a byte count"@,
            DiskError::BadAlignment(bytes) =>
                "size must be a positive multiple of 512 bytes, got "@ + text::decimal_of(
                bytes as nat,
            ),
            DiskError::Exists(path) => "refusing to overwrite existing file "@ + path@,
            DiskError::Io(source) => "i/o error: "@ + source@,
        }
    }

    /// The error as the user sees it.
    pub fn message(&self) -> (r: String)
        ensures
            r@ == self.spec_message(),
    {
        match self {
            DiskError::InvalidSize(size) => text::cat3(
                "invalid size '",
                size,
                "': use e.g. 32G, 512M or a byte count",
            ),
            DiskError::BadAlignment(bytes) => text::cat(
                "size must be a positive multiple of 512 bytes, got ",
                &text::decimal(*bytes),
            ),
            DiskError::Exists(path) => text::cat("refusing to overwrite existing file ", path),
            DiskError::Io(source) => text::cat("i/o error: ", source),
        }
    }
}

/// What a suffix multiplies by, if the character is one.
pub open spec fn multiplier_of(c: char) -> Option<nat> {
    if c == 'K' || c == 'k' {
        Some(1024)
    } else if c == 'M' || c == 'm' {
        Some(1048576)
    } else if c == 'G' || c == 'g' {
        Some(1073741824)
    } else if c == 'T' || c == 't' {
        Some(1099511627776)
    } else {
        None
    }
}

/// The bytes that a size text denotes: a number, and a suffix for kibi-, mebi-,
/// gibi- or tebibytes.
pub open spec fn size_of(s: Seq<char>) -> Option<nat> {
    let t = text::trim_of(s);
    if t.len() == 0 {
        None
    } else {
        let (digits, unit) = match multiplier_of(t.last()) {
            Some(unit) => (t.drop_last(), unit),
            None => (t, 1nat),
        };
        match text::parsed_number(digits, u64::MAX as nat) {
            Some(n) => if n * unit <= u64::MAX {
                Some(n * unit)
            } else {
                None
            },
            None => None,
        }
    }
}

/// Reads `32G`, `512M`, `1T` or a plain byte count as bytes.
pub fn parse_size(s: &str) -> (r: Result<u64, DiskError>)
    ensures
        match size_of(s@) {
            Some(bytes) => r matches Ok(b) && b == bytes,
            None => r matches Err(DiskError::InvalidSize(t)) && t@ == text::trim_of(s@),
        },
{
    let t = text::trim(s);
    let v = text::chars_of(&t);
    if v.len() == 0 {
        return Err(DiskError::InvalidSize(t));
    }
    let last = v[v.len() - 1];
    let unit: u64 = if last == 'K' || last == 'k' {
        1024
    } else if last == 'M' || last == 'm' {
        1048576
    } else if last == 'G' || last == 'g' {
        1073741824
    } else if last == 'T' || last == 't' {
        1099511627776
    } else {
        1
    };
    let end: usize = if unit == 1 {
        v.len()
    } else {
        v.len() - 1
    };
    let digits = text::string_of(&v, 0, end);
    proof {
        if unit == 1 {
            assert(digits@ =~= t@);
        } else {
            assert(digits@ =~= t@.drop_last());
        }
    }
    match text::parse_number(&digits, u64::MAX) {
        Some(n) => match n.checked_mul(unit) {
            Some(bytes) => Ok(bytes),
            None => Err(DiskError::InvalidSize(t)),
        },
        None => Err(DiskError::InvalidSize(t)),
    }
}

/// An image has whole sectors, and at least one.
pub open spec fn aligned(bytes: u64) -> bool {
    bytes > 0 && bytes % 512 == 0
}

/// Whether an image may have this size. Asked before any file is touched.
pub fn check_alignment(bytes: u64) -> (r: Result<(), DiskError>)
    ensures
        r == (if aligned(bytes) {
            Ok::<(), DiskError>(())
        } else {
            Err::<(), DiskError>(DiskError::BadAlignment(bytes))
        }),
{
    if bytes == 0 || bytes % 512 != 0 {
        return Err(DiskError::BadAlignment(bytes));
    }
    Ok(())
}

/// What creating the file gave.
#[derive(Debug, Clone, PartialEq, Eq)]
pub enum Attempt {
    /// The file is new and has its size.
    Done,
    /// There was a file already.
    AlreadyThere,
    Failed(String),
}

/// What becomes of creating an image of `bytes` bytes at `path`. An unaligned
/// size is refused whatever the attempt gave, and an existing file is never
/// overwritten.
pub fn create_raw(path: &str, bytes: u64, attempt: Attempt) -> (r: Result<(), DiskError>)
    ensures
        if !aligned(bytes) {
            r == Err::<(), DiskError>(DiskError::BadAlignment(bytes))
        } else {
            match attempt {
                Attempt::Done => r is Ok,
                Attempt::AlreadyThere => r matches Err(DiskError::Exists(p)) && p@ == path@,
                Attempt::Failed(e) => r == Err::<(), DiskError>(DiskError::Io(e)),
            }
        },
{
    check_alignment(bytes)?;
    match attempt {
        Attempt::Done => Ok(()),
        Attempt::AlreadyThere => Err(DiskError::Exists(path.to_owned())),
        Attempt::Failed(e) => Err(DiskError::Io(e)),
    }
}

/// A plain byte count reads back from its decimal text.
pub proof fn byte_counts_read_back(bytes: u64)
    ensures
        size_of(text::decimal_of(bytes as nat)) == Some(bytes as nat),
{
    let s = text::decimal_of(bytes as nat);
    text::decimal_reads_back(bytes as nat, u64::MAX as nat);
    assert forall|i: int| 0 <= i < s.len() implies !text::is_white(s[i]) by {
        assert(text::is_digit(s[i]));
    }
    text::trim_is_idempotent(s);
    assert(text::is_digit(s[s.len() - 1]));
}

} // verus!
