//! The loadable segments of a program image, and reading them out of an
//! ELF32 file with the `object` crate.
use vstd::prelude::*;
use object::read::elf::ProgramHeader;

verus! {

/// A segment: its bytes and the addresses they occupy.
#[derive(Debug)]
pub struct Segment {
    data: Vec<u8>,
    start_address: u64,
    end_address: u64,
}

/// The segments of a program image.
#[derive(Debug)]
pub struct Segments(Vec<Segment>);

impl Segment {
    /// The segment's bytes.
    pub closed spec fn bytes(self) -> Seq<u8> {
        self.data@
    }

    /// The first address of the segment.
    pub closed spec fn start(self) -> u64 {
        self.start_address
    }

    /// The end address of the segment (excluded).
    pub closed spec fn end(self) -> u64 {
        self.end_address
    }

    /// A segment of `data` placed from `start_address` to `end_address`.
    pub fn new(data: Vec<u8>, start_address: u64, end_address: u64) -> (r: Segment)
        ensures
            r.bytes() == data@,
            r.start() == start_address,
            r.end() == end_address,
    {
        Segment { data, start_address, end_address }
    }
}

impl Segments {
    /// The segments, in order.
    pub closed spec fn segments(self) -> Seq<Segment> {
        self.0@
    }

    /// The image of one segment.
    pub fn from_single_segment(data: Vec<u8>, start_addr: u64, end_addr: u64) -> (r: Segments)
        ensures
            r.segments().len() == 1,
            r.segments()[0].bytes() == data@,
            r.segments()[0].start() == start_addr,
            r.segments()[0].end() == end_addr,
    {
        Segments(vec![Segment { data, start_address: start_addr, end_address: end_addr }])
    }

    /// An image of the given segments, in order.
    pub fn from_segments(segments: Vec<Segment>) -> (r: Segments)
        ensures
            r.segments() == segments@,
    {
        Segments(segments)
    }

    /// The `bytes` bytes from `address`, taken from the first segment that
    /// holds `address`; `None` when no segment holds it.
    pub fn read_raw_bytes(&self, address: u64, bytes: usize) -> (r: Option<&[u8]>)
        requires
            forall|i: int| 0 <= i < self.segments().len() && (#[trigger] self.segments()[i]).start() <= address
                < self.segments()[i].end() ==> address - self.segments()[i].start() + bytes
                <= self.segments()[i].bytes().len(),
        ensures
            r is None <==> !exists|i: int| 0 <= i < self.segments().len() && (#[trigger] self.segments()[i]).start()
                <= address < self.segments()[i].end(),
            r matches Some(out) ==> exists|i: int| {
                &&& 0 <= i < self.segments().len()
                &&& (#[trigger] self.segments()[i]).start() <= address < self.segments()[i].end()
                &&& forall|j: int| 0 <= j < i ==> !((#[trigger] self.segments()[j]).start() <= address < self.segments()[j].end())
                &&& out@ == self.segments()[i].bytes().subrange(
                    address - self.segments()[i].start(),
                    address - self.segments()[i].start() + bytes,
                )
            },
    {
        let mut i: usize = 0;
        while i < self.0.len()
            invariant
                i <= self.segments().len(),
                self.segments() == self.0@,
                forall|j: int| 0 <= j < i ==> !((#[trigger] self.segments()[j]).start() <= address < self.segments()[j].end()),
                forall|k: int| 0 <= k < self.segments().len() && (#[trigger] self.segments()[k]).start() <= address
                    < self.segments()[k].end() ==> address - self.segments()[k].start() + bytes
                    <= self.segments()[k].bytes().len(),
            decreases self.0.len() - i,
        {
            let segment: &Segment = &self.0[i];
            if address >= segment.start_address && address < segment.end_address {
                proof {
                    assert(self.segments()[i as int] == *segment);
                    assert(address - segment.start() + bytes <= segment.bytes().len());
                    assert(segment.data@.len() == segment.data.len());
                }
                let offset: usize = (address - segment.start_address) as usize;
                let out: &[u8] = vstd::slice::slice_subrange(segment.data.as_slice(), offset, offset + bytes);
                return Some(out);
            }
            i = i + 1;
        }
        None
    }
}

/// The program headers of `file` as `object` reads them when the file
/// parses as an ELF32 file: the type of each, its virtual address and its
/// bytes (`None` where they cannot be read), in the order of the header
/// table; `None` when the file is not an ELF32 file.
pub uninterp spec fn elf_program_headers(file: Seq<u8>) -> Option<Seq<(u32, u64, Option<Seq<u8>>)>>;

/// Whether a program header read into plain values is the header `m`.
pub open spec fn header_is(h: (u32, u64, Option<Vec<u8>>), m: (u32, u64, Option<Seq<u8>>)) -> bool {
    &&& h.0 == m.0
    &&& h.1 == m.1
    &&& match h.2 {
        Some(d) => m.2 == Some(d@),
        None => m.2 is None,
    }
}

/// Parses `file` with `object::File::parse` and, for an ELF32 file, reads
/// every entry of `elf_program_headers` by `p_type`, `p_vaddr` and `data`;
/// the contract claims the answer is a function of the bytes alone.
#[verifier::external_body]
fn read_program_headers(file: &[u8]) -> (r: Option<Vec<(u32, u64, Option<Vec<u8>>)>>)
    ensures
        match r {
            Some(v) => elf_program_headers(file@) matches Some(h) && v@.len() == h.len() && forall|i: int|
                0 <= i < v@.len() ==> header_is(#[trigger] v@[i], h[i]),
            None => elf_program_headers(file@) is None,
        },
{
    let elf = match object::File::parse(file) {
        Ok(object::File::Elf32(elf)) => elf,
        _ => return None,
    };
    let endian = elf.endian();
    let mut out: Vec<(u32, u64, Option<Vec<u8>>)> = Vec::new();
    for header in elf.elf_program_headers() {
        let data: Option<Vec<u8>> = header.data(endian, elf.data()).ok().map(|d| d.to_vec());
        out.push((header.p_type(endian).0, u64::from(header.p_vaddr(endian)), data));
    }
    Some(out)
}

/// The loadable segments among program headers: the address and the bytes
/// of each header of type `PT_LOAD` (1), in order.
pub open spec fn load_segments(h: Seq<(u32, u64, Option<Seq<u8>>)>) -> Seq<(u64, Seq<u8>)>
    decreases h.len(),
{
    if h.len() == 0 {
        Seq::empty()
    } else {
        let rest = load_segments(h.drop_last());
        let last = h.last();
        if last.0 == 1 {
            rest.push((last.1, match last.2 {
                Some(d) => d,
                None => Seq::empty(),
            }))
        } else {
            rest
        }
    }
}

/// Whether every loadable header has readable bytes that end below the top
/// of the address space.
pub open spec fn loadable(h: Seq<(u32, u64, Option<Seq<u8>>)>) -> bool {
    forall|i: int| 0 <= i < h.len() && (#[trigger] h[i]).0 == 1 ==> h[i].2 is Some && h[i].1 + h[i].2.unwrap().len()
        <= u64::MAX
}

/// Whether `r` holds exactly the loadable segments `l`, each ending where
/// its bytes end.
pub open spec fn holds_segments(r: Seq<Segment>, l: Seq<(u64, Seq<u8>)>) -> bool {
    &&& r.len() == l.len()
    &&& forall|k: int| 0 <= k < r.len() ==> (#[trigger] r[k]).start() == l[k].0 && r[k].bytes() == l[k].1
        && r[k].end() == l[k].0 + l[k].1.len()
}

/// The loadable segments of the program headers `headers`, which are `h`
/// read into plain values; `None` when one of them cannot be read or ends
/// beyond the top of the address space.
fn collect_segments(
    headers: &Vec<(u32, u64, Option<Vec<u8>>)>,
    Ghost(h): Ghost<Seq<(u32, u64, Option<Seq<u8>>)>>,
) -> (r: Option<Vec<Segment>>)
    requires
        headers@.len() == h.len(),
        forall|j: int| 0 <= j < headers@.len() ==> header_is(#[trigger] headers@[j], h[j]),
    ensures
        r is Some <==> loadable(h),
        r matches Some(out) ==> holds_segments(out@, load_segments(h)),
{
    let mut out: Vec<Segment> = Vec::new();
    let mut i: usize = 0;
    while i < headers.len()
        invariant
            i <= headers@.len(),
            headers@.len() == h.len(),
            forall|j: int| 0 <= j < headers@.len() ==> header_is(#[trigger] headers@[j], h[j]),
            loadable(h.take(i as int)),
            holds_segments(out@, load_segments(h.take(i as int))),
        decreases headers.len() - i,
    {
        proof {
            assert(h.take(i as int + 1).drop_last() =~= h.take(i as int));
            assert(h.take(i as int + 1).last() == h[i as int]);
            assert(header_is(headers@[i as int], h[i as int]));
        }
        let (kind, address, data) = &headers[i];
        if *kind == 1 {
            match data {
                Some(d) => {
                    if d.len() as u64 > u64::MAX - *address {
                        proof {
                            assert(!loadable(h)) by {
                                assert(h[i as int].0 == 1);
                            }
                        }
                        return None;
                    }
                    let end: u64 = *address + d.len() as u64;
                    out.push(Segment::new(d.clone(), *address, end));
                },
                None => {
                    proof {
                        assert(!loadable(h)) by {
                            assert(h[i as int].0 == 1);
                        }
                    }
                    return None;
                },
            }
        }
        proof {
            assert forall|j: int| 0 <= j < i as int + 1 && (#[trigger] h.take(i as int + 1)[j]).0 == 1 implies h.take(
                i as int + 1,
            )[j].2 is Some && h.take(i as int + 1)[j].1 + h.take(i as int + 1)[j].2.unwrap().len() <= u64::MAX by {
                if j < i {
                    assert(h.take(i as int + 1)[j] == h.take(i as int)[j]);
                }
            }
        }
        i = i + 1;
    }
    proof {
        assert(h.take(i as int) =~= h);
    }
    Some(out)
}

impl Segments {
    /// The loadable segments of `file` when it is an ELF32 file whose
    /// loadable segments can all be read and end below the top of the
    /// address space; `None` otherwise.
    pub fn try_from_elf(file: &[u8]) -> (r: Option<Segments>)
        ensures
            r is Some <==> (elf_program_headers(file@) matches Some(h) && loadable(h)),
            r matches Some(s) ==> holds_segments(s.segments(), load_segments(elf_program_headers(file@).unwrap())),
    {
        let headers: Vec<(u32, u64, Option<Vec<u8>>)> = match read_program_headers(file) {
            Some(v) => v,
            None => return None,
        };
        match collect_segments(&headers, Ghost(elf_program_headers(file@).unwrap())) {
            Some(_) => Some(Segments::from_elf(file)),
            None => None,
        }
    }

    /// The loadable segments of an ELF32 file, in the order of its program
    /// header table: each `PT_LOAD` header gives a segment of its bytes from
    /// its virtual address to that address plus their number.
    pub fn from_elf(file: &[u8]) -> (r: Segments)
        requires
            elf_program_headers(file@) matches Some(h) && loadable(h),
        ensures
            holds_segments(r.segments(), load_segments(elf_program_headers(file@).unwrap())),
    {
        let headers: Vec<(u32, u64, Option<Vec<u8>>)> = match read_program_headers(file) {
            Some(v) => v,
            None => return Segments(Vec::new()),
        };
        match collect_segments(&headers, Ghost(elf_program_headers(file@).unwrap())) {
            Some(out) => Segments(out),
            None => Segments(Vec::new()),
        }
    }
}

} // verus!
