use crate::vfs::{push_char, Error};
use std::collections::BTreeMap;
use vstd::prelude::*;

verus! {

broadcast use vstd::std_specs::btree::group_btree_axioms, vstd::laws_cmp::group_laws_cmp;

/// Size of a header block, and the unit in which file contents are stored.
pub const BLOCK_SIZE: usize = 512;

/// Length of the name field, at the start of a header block.
pub const NAME_LEN: usize = 100;

/// Offset of the size field.
pub const SIZE_OFFSET: usize = 124;

/// Length of the size field.
pub const SIZE_LEN: usize = 12;

/// Offset of the type byte.
pub const TYPE_OFFSET: usize = 156;

/// Offset of the `ustar` magic.
pub const MAGIC_OFFSET: usize = 257;

/// Length of the `ustar` magic.
pub const MAGIC_LEN: usize = 5;

/// The kind of an archive entry.
#[derive(Debug, PartialEq, Eq, Clone, Copy, Structural)]
pub enum FileType {
    RegularFile,
    Folder,
    Other,
}

/// One entry of the archive: its path, its size in bytes, its kind, and the
/// offset of its contents in the archive.
#[derive(Debug)]
pub struct Header {
    pub name: String,
    pub size: usize,
    pub file_type: FileType,
    pub start_addr: usize,
}

/// What a header says: (name, size, kind, offset of the contents).
pub type HeaderView = (Seq<char>, usize, FileType, usize);

impl View for Header {
    type V = HeaderView;

    open spec fn view(&self) -> HeaderView {
        (self.name@, self.size, self.file_type, self.start_addr)
    }
}

impl Header {
    /// Only regular files have contents to read.
    pub fn is_readable(&self) -> (r: bool)
        ensures
            r == (self.file_type == FileType::RegularFile),
    {
        match self.file_type {
            FileType::RegularFile => true,
            _ => false,
        }
    }
}

/// The index of the first NUL byte of `s` in `[from, limit)`; if there is
/// none, `limit` or the end of `s`, whichever comes first (when `from` comes
/// before both).
pub open spec fn field_end(s: Seq<u8>, from: int, limit: int) -> int
    decreases limit - from,
{
    if from >= limit || from >= s.len() || s[from] == 0 {
        from
    } else {
        field_end(s, from + 1, limit)
    }
}

/// The name field: its bytes up to the first NUL (at most 100), each byte
/// taken as the character of the same code.
pub open spec fn name_of(s: Seq<u8>) -> Seq<char> {
    s.subrange(0, field_end(s, 0, NAME_LEN as int)).map_values(|b: u8| b as char)
}

/// A field of at most `limit` bytes can be read from `s`: either all of its
/// bytes are there, or a NUL ends it within `s`.
pub open spec fn field_readable(s: Seq<u8>, limit: int) -> bool {
    s.len() >= limit || field_end(s, 0, limit) < s.len()
}

/// The value of the first `n` digits of `s`, most significant first, each
/// digit worth its byte minus `'0'`.
pub open spec fn digits_value(s: Seq<u8>, n: int) -> int
    decreases n,
{
    if n <= 0 {
        0
    } else {
        digits_value(s, n - 1) * 8 + (s[n - 1] - 48)
    }
}

/// The size field: octal digits up to the first NUL (at most 12).
pub open spec fn octal_of(s: Seq<u8>) -> int {
    digits_value(s, field_end(s, 0, SIZE_LEN as int))
}

/// No digit of the size field lies below `'0'`.
pub open spec fn size_field_ok(s: Seq<u8>) -> bool {
    forall|i: int| 0 <= i < field_end(s, 0, SIZE_LEN as int) ==> s[i] >= 48
}

/// The first five bytes of `s` are `ustar`.
pub open spec fn is_magic(s: Seq<u8>) -> bool {
    &&& s[0] == 117
    &&& s[1] == 115
    &&& s[2] == 116
    &&& s[3] == 97
    &&& s[4] == 114
}

/// The kind that the type byte gives: `'0'` or NUL a regular file, `'5'` a
/// folder.
pub open spec fn type_of(b: u8) -> FileType {
    if b == 48 || b == 0 {
        FileType::RegularFile
    } else if b == 53 {
        FileType::Folder
    } else {
        FileType::Other
    }
}

/// The header in the block at `start`, if the data reaches the end of its
/// `ustar` magic, the magic is there, and the size field is made of digits
/// whose value fits in a `usize`. (Its contents would start past the end of
/// the address space when `start + 512` exceeds `usize::MAX`: no header then.)
pub open spec fn header_at(s: Seq<u8>, start: int) -> Option<HeaderView> {
    if start < 0 || start + MAGIC_OFFSET + MAGIC_LEN > s.len() || start + BLOCK_SIZE > usize::MAX {
        None
    } else if !is_magic(s.subrange(start + MAGIC_OFFSET, start + MAGIC_OFFSET + MAGIC_LEN)) {
        None
    } else if !size_field_ok(s.subrange(start + SIZE_OFFSET, start + SIZE_OFFSET + SIZE_LEN)) {
        None
    } else if octal_of(s.subrange(start + SIZE_OFFSET, start + SIZE_OFFSET + SIZE_LEN)) > usize::MAX {
        None
    } else {
        Some(
            (
                name_of(s.subrange(start, start + NAME_LEN)),
                octal_of(s.subrange(start + SIZE_OFFSET, start + SIZE_OFFSET + SIZE_LEN)) as usize,
                type_of(s[start + TYPE_OFFSET]),
                (start + BLOCK_SIZE) as usize,
            ),
        )
    }
}

/// Bytes from one header to the next: the header block, and for a non-empty
/// regular file its contents rounded up to whole blocks.
pub open spec fn entry_span(h: HeaderView) -> int {
    if h.2 == FileType::RegularFile && h.1 != 0 {
        ((h.1 + 511) / 512 + 1) * 512
    } else {
        512
    }
}

/// The headers of the archive `s` from offset `pos` on, up to the first block
/// that is not a header.
pub open spec fn tar_headers(s: Seq<u8>, pos: int) -> Seq<HeaderView>
    decreases s.len() - pos,
{
    match header_at(s, pos) {
        None => Seq::empty(),
        Some(h) => if pos + entry_span(h) <= s.len() {
            seq![h] + tar_headers(s, pos + entry_span(h))
        } else {
            seq![h]
        },
    }
}

proof fn lemma_field_end(s: Seq<u8>, from: int, limit: int, k: int)
    requires
        from <= k <= limit,
        k <= s.len(),
        forall|j: int| from <= j < k ==> s[j] != 0,
        k == limit || k == s.len() || s[k] == 0,
    ensures
        field_end(s, from, limit) == k,
    decreases k - from,
{
    if from < k {
        lemma_field_end(s, from + 1, limit, k);
    }
}

proof fn lemma_field_end_bounds(s: Seq<u8>, from: int, limit: int)
    requires
        from <= limit,
        from <= s.len(),
    ensures
        from <= field_end(s, from, limit) <= limit,
        field_end(s, from, limit) <= s.len(),
        forall|j: int| from <= j < field_end(s, from, limit) ==> s[j] != 0,
    decreases limit - from,
{
    if from < limit && from < s.len() && s[from] != 0 {
        lemma_field_end_bounds(s, from + 1, limit);
    }
}

proof fn lemma_field_end_beyond(s: Seq<u8>, from: int, limit: int, k: int)
    requires
        from <= k < limit,
        k < s.len(),
        forall|j: int| from <= j <= k ==> s[j] != 0,
    ensures
        field_end(s, from, limit) > k,
    decreases k - from,
{
    if from < k {
        lemma_field_end_beyond(s, from + 1, limit, k);
    } else {
        lemma_field_end_bounds(s, k + 1, limit);
    }
}

/// `8` to the power `n`.
pub open spec fn pow8(n: nat) -> nat
    decreases n,
{
    if n == 0 {
        1
    } else {
        8 * pow8((n - 1) as nat)
    }
}

proof fn lemma_pow8_mono(n: nat)
    requires
        n <= 12,
    ensures
        pow8(n) <= pow8(12),
        pow8(12) == 68719476736,
    decreases 12 - n,
{
    reveal_with_fuel(pow8, 13);
    if n < 12 {
        lemma_pow8_mono(n + 1);
    }
}

fn octal_value(data: &[u8]) -> (r: u64)
    requires
        size_field_ok(data@),
    ensures
        r == octal_of(data@),
{
    let ghost s = data@;
    let mut result: u64 = 0;
    let mut i: usize = 0;
    proof {
        lemma_field_end_bounds(s, 0, 12);
    }
    while i < SIZE_LEN && i < data.len() && data[i] != 0
        invariant
            i <= SIZE_LEN,
            i <= s.len(),
            data@ == s,
            size_field_ok(s),
            forall|j: int| 0 <= j < i ==> s[j] != 0,
            result == digits_value(s, i as int),
            7 * result <= 207 * (pow8(i as nat) - 1),
            pow8(i as nat) >= 1,
        decreases SIZE_LEN - i,
    {
        proof {
            lemma_pow8_mono(i as nat);
            lemma_field_end_beyond(s, 0, 12, i as int);
            assert(s[i as int] >= 48);
            assert(pow8((i + 1) as nat) == 8 * pow8(i as nat));
        }
        result = result * 8 + (data[i] - 48u8) as u64;
        i = i + 1;
    }
    proof {
        lemma_field_end(s, 0, 12, i as int);
    }
    result
}

/// Reads the size field: octal digits up to the first NUL, at most 12.
pub fn parse_octal_size(data: &[u8]) -> (r: usize)
    requires
        field_readable(data@, SIZE_LEN as int),
        size_field_ok(data@),
        octal_of(data@) <= usize::MAX,
    ensures
        r == octal_of(data@),
{
    octal_value(data) as usize
}

/// Reads the name field: bytes up to the first NUL, at most 100.
pub fn parse_name(data: &[u8]) -> (r: String)
    requires
        field_readable(data@, NAME_LEN as int),
    ensures
        r@ == name_of(data@),
{
    let mut result = String::new();
    let mut i: usize = 0;
    while i < NAME_LEN && i < data.len() && data[i] != 0
        invariant
            i <= NAME_LEN,
            i <= data@.len(),
            forall|j: int| 0 <= j < i ==> data@[j] != 0,
            result@ == data@.subrange(0, i as int).map_values(|b: u8| b as char),
        decreases NAME_LEN - i,
    {
        let c = data[i] as char;
        push_char(&mut result, c);
        proof {
            assert(result@ =~= data@.subrange(0, i + 1).map_values(|b: u8| b as char));
        }
        i = i + 1;
    }
    proof {
        lemma_field_end(data@, 0, 100, i as int);
    }
    result
}

/// The five bytes are the `ustar` magic.
pub fn is_valid_header(data: &[u8]) -> (r: bool)
    requires
        data@.len() >= MAGIC_LEN,
    ensures
        r == is_magic(data@),
{
    data[0] == 117u8 && data[1] == 115u8 && data[2] == 116u8 && data[3] == 97u8 && data[4] == 114u8
}

fn size_field_digits(data: &[u8]) -> (r: bool)
    ensures
        r == size_field_ok(data@),
{
    proof {
        lemma_field_end_bounds(data@, 0, 12);
    }
    let mut i: usize = 0;
    while i < SIZE_LEN && i < data.len() && data[i] != 0
        invariant
            i <= SIZE_LEN,
            i <= data@.len(),
            forall|j: int| 0 <= j < i ==> data@[j] != 0 && data@[j] >= 48,
        decreases SIZE_LEN - i,
    {
        if data[i] < 48u8 {
            proof {
                lemma_field_end_beyond(data@, 0, 12, i as int);
            }
            return false;
        }
        i = i + 1;
    }
    proof {
        lemma_field_end(data@, 0, 12, i as int);
    }
    true
}

/// Reads the header in the block at `start`. Returns `None` when the data ends
/// before the end of the `ustar` magic, the magic is not there, or the size
/// field is not made of digits or does not fit in a `usize`.
pub fn parse_header(data: &[u8], start: usize) -> (r: Option<Header>)
    ensures
        match r {
            Some(h) => header_at(data@, start as int) == Some(h@),
            None => header_at(data@, start as int) is None,
        },
{
    if start > data.len() || data.len() - start < MAGIC_OFFSET + MAGIC_LEN || start > usize::MAX - BLOCK_SIZE {
        return None;
    }
    let ustar_start = start + MAGIC_OFFSET;
    if !is_valid_header(&data[ustar_start..ustar_start + MAGIC_LEN]) {
        return None;
    }
    let size_start = start + SIZE_OFFSET;
    let size_field = &data[size_start..size_start + SIZE_LEN];
    if !size_field_digits(size_field) {
        return None;
    }
    let size_value = octal_value(size_field);
    if size_value > usize::MAX as u64 {
        return None;
    }
    let size = size_value as usize;
    let file_type = match data[start + TYPE_OFFSET] {
        48u8 | 0u8 => FileType::RegularFile,
        53u8 => FileType::Folder,
        _ => FileType::Other,
    };
    let name = parse_name(&data[start..start + NAME_LEN]);
    let start_addr = start + BLOCK_SIZE;
    Some(Header { name, size, file_type, start_addr })
}

/// Reads the headers of an archive, from its first block up to the first
/// block that is not a header.
pub fn parse_file(data: &[u8]) -> (r: Vec<Header>)
    ensures
        r@.map_values(|h: Header| h@) == tar_headers(data@, 0),
{
    let mut pos: usize = 0;
    let mut res: Vec<Header> = Vec::new();
    loop
        invariant
            pos <= data@.len(),
            res@.map_values(|h: Header| h@) + tar_headers(data@, pos as int) == tar_headers(data@, 0),
        decreases data@.len() - pos,
    {
        let header = match parse_header(data, pos) {
            Some(h) => h,
            None => {
                proof {
                    assert(res@.map_values(|h: Header| h@) + tar_headers(data@, pos as int)
                        =~= res@.map_values(|h: Header| h@));
                }
                return res;
            },
        };
        let ghost hv = header@;
        let remaining = data.len() - pos;
        let has_contents = header.file_type == FileType::RegularFile && header.size != 0;
        let size = header.size;
        let ghost before = res@;
        res.push(header);
        proof {
            assert(res@.map_values(|h: Header| h@) =~= before.map_values(|h: Header| h@).push(hv));
        }
        let span: u128 = if has_contents {
            ((size as u128 + 511) / 512 + 1) * 512
        } else {
            512
        };
        if span > remaining as u128 {
            proof {
                assert(res@.map_values(|h: Header| h@) =~= before.map_values(|h: Header| h@) + seq![hv]);
            }
            return res;
        }
        proof {
            assert(res@.map_values(|h: Header| h@) + tar_headers(data@, pos + span) =~= before.map_values(
                |h: Header| h@,
            ) + (seq![hv] + tar_headers(data@, pos + span)));
        }
        pos = pos + span as usize;
    }
}

/// The headers of a mounted archive, by entry number, with the archive's bytes.
pub struct UstarDriver {
    headers: BTreeMap<usize, Header>,
    data: Vec<u8>,
}

impl UstarDriver {
    /// The headers by entry number.
    pub closed spec fn headers(&self) -> Map<usize, HeaderView> {
        Map::new(|id: usize| self.headers@.contains_key(id), |id: usize| self.headers@[id]@)
    }

    /// The archive's bytes.
    pub closed spec fn bytes(&self) -> Seq<u8> {
        self.data@
    }

    pub fn new(data: Vec<u8>) -> (r: UstarDriver)
        ensures
            r.headers() == Map::<usize, HeaderView>::empty(),
            r.bytes() == data@,
    {
        let r = UstarDriver { headers: BTreeMap::new(), data };
        proof {
            assert(r.headers() =~= Map::<usize, HeaderView>::empty());
        }
        r
    }

    /// Records `header` under `id`, replacing any earlier one.
    pub fn insert_header(&mut self, id: usize, header: Header)
        ensures
            final(self).headers() == old(self).headers().insert(id, header@),
            final(self).bytes() == old(self).bytes(),
    {
        let ghost hv = header@;
        self.headers.insert(id, header);
        proof {
            assert(self.headers() =~= old(self).headers().insert(id, hv));
        }
    }

    /// The header recorded under `id`.
    pub fn get_header(&self, id: usize) -> (r: Result<&Header, Error>)
        ensures
            match r {
                Ok(h) => self.headers().contains_key(id) && self.headers()[id] == h@,
                Err(e) => !self.headers().contains_key(id) && e == Error::NotFound,
            },
    {
        match self.headers.get(&id) {
            Some(h) => Ok(h),
            None => Err(Error::NotFound),
        }
    }

    /// The size of the entry recorded under `id`.
    pub fn get_size(&self, id: usize) -> (r: Result<usize, Error>)
        ensures
            match r {
                Ok(n) => self.headers().contains_key(id) && n == self.headers()[id].1,
                Err(e) => !self.headers().contains_key(id) && e == Error::NotFound,
            },
    {
        let header = match self.get_header(id) {
            Ok(h) => h,
            Err(e) => {
                return Err(e);
            },
        };
        Ok(header.size)
    }

    /// Up to `requested_amount` bytes of the file recorded under `id`, from
    /// byte `pos` on, cut at the end of the file. Fails when there is no such
    /// entry, when it is not a regular file, or when its contents run past the
    /// end of the archive.
    pub fn read(&self, id: usize, pos: usize, requested_amount: usize) -> (r: Result<Vec<u8>, Error>)
        ensures
            read_post(*self, id, pos, requested_amount, r),
    {
        let header = match self.get_header(id) {
            Ok(h) => h,
            Err(e) => {
                return Err(e);
            },
        };
        let size = header.size;
        if !header.is_readable() || header.start_addr > self.data.len() || size > self.data.len()
            - header.start_addr {
            return Err(Error::NotAReadableFile);
        }
        let start = if pos < size {
            pos
        } else {
            size
        };
        let end = if requested_amount < size - start {
            start + requested_amount
        } else {
            size
        };
        let from = header.start_addr + start;
        let to = header.start_addr + end;
        let mut out: Vec<u8> = Vec::new();
        let mut k: usize = from;
        while k < to
            invariant
                from <= k <= to,
                to <= self.data@.len(),
                out@ == self.data@.subrange(from as int, k as int),
            decreases to - k,
        {
            out.push(self.data[k]);
            proof {
                assert(out@ =~= self.data@.subrange(from as int, k + 1));
            }
            k = k + 1;
        }
        Ok(out)
    }
}

/// What reading `requested_amount` bytes from byte `pos` of entry `id`
/// gives: no such entry, not a regular file (or contents past the end of the
/// archive), or the bytes from `pos`, cut at the end of the file.
pub open spec fn read_post(
    driver: UstarDriver,
    id: usize,
    pos: usize,
    requested_amount: usize,
    r: Result<Vec<u8>, Error>,
) -> bool {
    if !driver.headers().contains_key(id) {
        r == Err::<Vec<u8>, Error>(Error::NotFound)
    } else {
        let h = driver.headers()[id];
        let start = if pos < h.1 {
            pos as int
        } else {
            h.1 as int
        };
        let end = if requested_amount < h.1 - start {
            start + requested_amount
        } else {
            h.1 as int
        };
        if h.2 != FileType::RegularFile || h.3 + h.1 > driver.bytes().len() {
            r == Err::<Vec<u8>, Error>(Error::NotAReadableFile)
        } else {
            r matches Ok(v) && v@ == driver.bytes().subrange(h.3 + start, h.3 + end)
        }
    }
}

/// The index of the first header named `name`.
pub fn find_header(headers: &Vec<Header>, name: &str) -> (r: Option<usize>)
    ensures
        match r {
            Some(i) => i < headers@.len() && headers@[i as int].name@ == name@ && forall|j: int|
                0 <= j < i ==> headers@[j].name@ != name@,
            None => forall|j: int| 0 <= j < headers@.len() ==> headers@[j].name@ != name@,
        },
{
    let wanted = name.to_owned();
    let mut i: usize = 0;
    while i < headers.len()
        invariant
            wanted@ == name@,
            i <= headers@.len(),
            forall|j: int| 0 <= j < i ==> headers@[j].name@ != name@,
        decreases headers@.len() - i,
    {
        if headers[i].name == wanted {
            return Some(i);
        }
        i = i + 1;
    }
    None
}

} // verus!
