//! Compute dispatches: what may be sent to the GPU, and in which form.
//!
//! A dispatch is checked before the GPU is touched: a wild size or group count
//! would hang a device that cannot be reset.
use vstd::prelude::*;

use crate::text;

verus! {

/// Bytes of push constants that every device takes.
pub const MAX_PUSH_BYTES: usize = 128;
/// Storage buffers of one dispatch.
pub const MAX_BUFFERS: usize = 8;
/// Work groups per dimension.
pub const MAX_GROUPS_PER_DIM: u32 = 65_535;
/// Bytes of one buffer.
pub const MAX_BUFFER_BYTES: u64 = 2_147_483_648;
/// Time after which a dispatch counts as hung.
pub const DISPATCH_FENCE_TIMEOUT_NS: u64 = 20_000_000_000;
/// First word of a shader.
pub const SPIRV_MAGIC: u32 = 0x0723_0203;
/// Memory that the host can map.
pub const HOST_VISIBLE: u32 = 0x2;
/// Memory that the host can map and that needs no flushes.
pub const HOST_VISIBLE_COHERENT: u32 = 0x6;
/// A queue that takes compute work.
pub const QUEUE_COMPUTE: u32 = 0x2;

/// A storage buffer of a dispatch.
#[derive(Debug)]
pub struct BufSpec {
    /// Size in bytes.
    pub bytes: u64,
    /// Initial contents; zeroes where absent.
    pub upload: Option<Vec<u8>>,
    /// Read the buffer back afterwards.
    pub readback: bool,
}

impl BufSpec {
    /// A zeroed buffer that is not read back.
    pub fn scratch(bytes: u64) -> (r: BufSpec)
        ensures
            r.bytes == bytes,
            r.upload is None,
            !r.readback,
    {
        BufSpec { bytes, upload: None, readback: false }
    }

    /// A buffer with contents, read back.
    pub fn io(data: Vec<u8>) -> (r: BufSpec)
        ensures
            r.bytes == data@.len(),
            r.upload == Some(data),
            r.readback,
    {
        BufSpec { bytes: data.len() as u64, upload: Some(data), readback: true }
    }

    /// What the buffer holds before the dispatch: its contents, zeroes behind.
    pub open spec fn contents(&self) -> Seq<u8> {
        let given = match self.upload {
            Some(data) => data@,
            None => seq![],
        };
        given + Seq::new((self.bytes - given.len()) as nat, |i: int| 0u8)
    }

    /// What the buffer holds before the dispatch.
    pub fn initial(&self) -> (r: Vec<u8>)
        requires
            self.bytes <= MAX_BUFFER_BYTES,
            self.upload matches Some(data) ==> data@.len() <= self.bytes,
        ensures
            r@ == self.contents(),
            r@.len() == self.bytes,
    {
        let mut r: Vec<u8> = Vec::new();
        if let Some(data) = &self.upload {
            let mut i: usize = 0;
            while i < data.len()
                invariant
                    i <= data@.len(),
                    r@ == data@.take(i as int),
                decreases data@.len() - i,
            {
                r.push(data[i]);
                i += 1;
                assert(r@ =~= data@.take(i as int));
            }
            assert(r@ =~= data@);
        }
        let ghost given = r@;
        let mut n: u64 = r.len() as u64;
        while n < self.bytes
            invariant
                given.len() <= n <= self.bytes,
                r@.len() == n,
                r@ =~= given + Seq::new((n - given.len()) as nat, |i: int| 0u8),
            decreases self.bytes - n,
        {
            r.push(0);
            n += 1;
        }
        r
    }
}

/// The buffers read back, in the order of the dispatch's buffers.
#[derive(Debug)]
pub struct Readback {
    pub buffers: Vec<Option<Vec<u8>>>,
}

impl Readback {
    /// The readback of a dispatch: the contents of each buffer, in order, where
    /// it was asked for.
    pub fn new(buffers: &[BufSpec], contents: Vec<Vec<u8>>) -> (r: Readback)
        requires
            buffers@.len() == contents@.len(),
        ensures
            r.buffers@.len() == buffers@.len(),
            forall|i: int|
                0 <= i < buffers@.len() ==> #[trigger] r.buffers@[i] == if buffers@[i].readback {
                    Some(contents@[i])
                } else {
                    None
                },
    {
        let ghost all = contents@;
        let mut left: Vec<Vec<u8>> = contents;
        let mut out: Vec<Option<Vec<u8>>> = Vec::new();
        let mut i: usize = 0;
        while i < buffers.len()
            invariant
                i <= buffers@.len(),
                buffers@.len() == all.len(),
                left@ == all.skip(i as int),
                out@.len() == i,
                forall|k: int|
                    0 <= k < i ==> #[trigger] out@[k] == if buffers@[k].readback {
                        Some(all[k])
                    } else {
                        None
                    },
            decreases buffers@.len() - i,
        {
            let data: Vec<u8> = left.remove(0);
            assert(left@ =~= all.skip(i + 1));
            out.push(
                if buffers[i].readback {
                    Some(data)
                } else {
                    None
                },
            );
            i += 1;
        }
        Readback { buffers: out }
    }

    /// The first buffer that was read back.
    pub fn first(&self) -> (r: Option<&Vec<u8>>)
        ensures
            match r {
                Some(b) => exists|i: int|
                    0 <= i < self.buffers@.len() && #[trigger] self.buffers@[i] == Some(*b)
                        && forall|j: int| 0 <= j < i ==> (#[trigger] self.buffers@[j]) is None,
                None => forall|j: int|
                    0 <= j < self.buffers@.len() ==> (#[trigger] self.buffers@[j]) is None,
            },
    {
        let mut i: usize = 0;
        while i < self.buffers.len()
            invariant
                i <= self.buffers@.len(),
                forall|j: int| 0 <= j < i ==> (#[trigger] self.buffers@[j]) is None,
            decreases self.buffers@.len() - i,
        {
            if let Some(b) = &self.buffers[i] {
                assert(self.buffers@[i as int] == Some(*b));
                return Some(b);
            }
            i += 1;
        }
        None
    }
}

/// Why a dispatch is refused.
#[derive(Clone, Copy, Debug, PartialEq, Eq, Structural)]
pub enum DispatchError {
    EmptySpirv,
    OddSpirv { len: usize },
    PushTooLong { len: usize },
    NoBuffer,
    TooManyBuffers { count: usize },
    TooManyGroups { dim: usize, groups: u32 },
    EmptyBuffer { index: usize },
    BufferTooLarge { index: usize, bytes: u64 },
    UploadTooLong { index: usize, len: usize, bytes: u64 },
    /// The shader does not start with its magic number.
    BadSpirv,
}

impl DispatchError {
    /// The message shown to the operator.
    pub open spec fn text(&self) -> Seq<char> {
        match self {
            DispatchError::EmptySpirv => "dispatch: empty SPIR-V"@,
            DispatchError::OddSpirv { len } => "dispatch: SPIR-V length "@ + text::dec(*len as nat)
                + " is not a multiple of 4"@,
            DispatchError::PushTooLong { len } => "dispatch: "@ + text::dec(*len as nat)
                + " push-constant bytes exceeds the 128-byte cap"@,
            DispatchError::NoBuffer => "dispatch: at least one storage buffer is required"@,
            DispatchError::TooManyBuffers { count } => "dispatch: "@ + text::dec(*count as nat)
                + " buffers exceeds the 8-binding cap"@,
            DispatchError::TooManyGroups { dim, groups } => "dispatch: workgroup count "@
                + text::dec(*groups as nat) + " on dim "@ + text::dec(*dim as nat)
                + " exceeds the 65535 cap"@,
            DispatchError::EmptyBuffer { index } => "dispatch: buffer "@ + text::dec(*index as nat)
                + " has zero size"@,
            DispatchError::BufferTooLarge { index, bytes } => "dispatch: buffer "@ + text::dec(
                *index as nat,
            ) + " size ("@ + text::dec(*bytes as nat) + " B) exceeds the 2147483648-byte cap"@,
            DispatchError::UploadTooLong { index, len, bytes } => "dispatch: buffer "@ + text::dec(
                *index as nat,
            ) + " upload ("@ + text::dec(*len as nat) + " B) exceeds its size ("@ + text::dec(
                *bytes as nat,
            ) + " B)"@,
            DispatchError::BadSpirv => "input missing SPIR-V magic number"@,
        }
    }

    /// The message shown to the operator.
    pub fn message(&self) -> (r: String)
        ensures
            r@ == self.text(),
    {
        match self {
            DispatchError::EmptySpirv => "dispatch: empty SPIR-V".to_owned(),
            DispatchError::OddSpirv { len } => text::join3(
                "dispatch: SPIR-V length ",
                text::decimal(*len as u64).as_str(),
                " is not a multiple of 4",
            ),
            DispatchError::PushTooLong { len } => text::join3(
                "dispatch: ",
                text::decimal(*len as u64).as_str(),
                " push-constant bytes exceeds the 128-byte cap",
            ),
            DispatchError::NoBuffer => {
                "dispatch: at least one storage buffer is required".to_owned()
            },
            DispatchError::TooManyBuffers { count } => text::join3(
                "dispatch: ",
                text::decimal(*count as u64).as_str(),
                " buffers exceeds the 8-binding cap",
            ),
            DispatchError::TooManyGroups { dim, groups } => {
                let mut r = text::join3(
                    "dispatch: workgroup count ",
                    text::decimal(*groups as u64).as_str(),
                    " on dim ",
                );
                r.append(text::decimal(*dim as u64).as_str());
                r.append(" exceeds the 65535 cap");
                r
            },
            DispatchError::EmptyBuffer { index } => text::join3(
                "dispatch: buffer ",
                text::decimal(*index as u64).as_str(),
                " has zero size",
            ),
            DispatchError::BufferTooLarge { index, bytes } => {
                let mut r = text::join3(
                    "dispatch: buffer ",
                    text::decimal(*index as u64).as_str(),
                    " size (",
                );
                r.append(text::decimal(*bytes).as_str());
                r.append(" B) exceeds the 2147483648-byte cap");
                r
            },
            DispatchError::UploadTooLong { index, len, bytes } => {
                let mut r = text::join3(
                    "dispatch: buffer ",
                    text::decimal(*index as u64).as_str(),
                    " upload (",
                );
                r.append(text::decimal(*len as u64).as_str());
                r.append(" B) exceeds its size (");
                r.append(text::decimal(*bytes).as_str());
                r.append(" B)");
                r
            },
            DispatchError::BadSpirv => "input missing SPIR-V magic number".to_owned(),
        }
    }
}

/// What is wrong with one buffer.
pub open spec fn buffer_fault(index: int, b: BufSpec) -> Option<DispatchError> {
    if b.bytes == 0 {
        Some(DispatchError::EmptyBuffer { index: index as usize })
    } else if b.bytes > MAX_BUFFER_BYTES {
        Some(DispatchError::BufferTooLarge { index: index as usize, bytes: b.bytes })
    } else if b.upload is Some && b.upload->0@.len() > b.bytes {
        Some(
            DispatchError::UploadTooLong {
                index: index as usize,
                len: b.upload->0@.len() as usize,
                bytes: b.bytes,
            },
        )
    } else {
        None
    }
}

/// The fault of the first faulty buffer from `from` on.
pub open spec fn first_buffer_fault(buffers: Seq<BufSpec>, from: int) -> Option<DispatchError>
    decreases buffers.len() - from,
{
    if from < 0 || from >= buffers.len() {
        None
    } else if buffer_fault(from, buffers[from]) is Some {
        buffer_fault(from, buffers[from])
    } else {
        first_buffer_fault(buffers, from + 1)
    }
}

/// The first dimension with too many groups.
pub open spec fn group_fault(groups: Seq<u32>) -> Option<DispatchError> {
    if groups[0] > MAX_GROUPS_PER_DIM {
        Some(DispatchError::TooManyGroups { dim: 0, groups: groups[0] })
    } else if groups[1] > MAX_GROUPS_PER_DIM {
        Some(DispatchError::TooManyGroups { dim: 1, groups: groups[1] })
    } else if groups[2] > MAX_GROUPS_PER_DIM {
        Some(DispatchError::TooManyGroups { dim: 2, groups: groups[2] })
    } else {
        None
    }
}

/// The first fault of a dispatch: shader, push constants, buffer count, groups,
/// buffers.
pub open spec fn fault(
    spirv: Seq<u8>,
    groups: Seq<u32>,
    push: Seq<u8>,
    buffers: Seq<BufSpec>,
) -> Option<DispatchError> {
    if spirv.len() == 0 {
        Some(DispatchError::EmptySpirv)
    } else if spirv.len() % 4 != 0 {
        Some(DispatchError::OddSpirv { len: spirv.len() as usize })
    } else if push.len() > MAX_PUSH_BYTES {
        Some(DispatchError::PushTooLong { len: push.len() as usize })
    } else if buffers.len() == 0 {
        Some(DispatchError::NoBuffer)
    } else if buffers.len() > MAX_BUFFERS {
        Some(DispatchError::TooManyBuffers { count: buffers.len() as usize })
    } else if group_fault(groups) is Some {
        group_fault(groups)
    } else {
        first_buffer_fault(buffers, 0)
    }
}

/// Checks a dispatch before the GPU is touched.
pub fn dispatch(spirv: &[u8], groups: [u32; 3], push: &[u8], buffers: &[BufSpec]) -> (r: Result<
    (),
    DispatchError,
>)
    ensures
        match fault(spirv@, groups@, push@, buffers@) {
            Some(e) => r == Err::<(), DispatchError>(e),
            None => r is Ok,
        },
{
    if spirv.len() == 0 {
        return Err(DispatchError::EmptySpirv);
    }
    if spirv.len() % 4 != 0 {
        return Err(DispatchError::OddSpirv { len: spirv.len() });
    }
    if push.len() > MAX_PUSH_BYTES {
        return Err(DispatchError::PushTooLong { len: push.len() });
    }
    if buffers.len() == 0 {
        return Err(DispatchError::NoBuffer);
    }
    if buffers.len() > MAX_BUFFERS {
        return Err(DispatchError::TooManyBuffers { count: buffers.len() });
    }
    let mut dim: usize = 0;
    while dim < 3
        invariant
            dim <= 3,
            forall|d: int| 0 <= d < dim ==> #[trigger] groups@[d] <= MAX_GROUPS_PER_DIM,
            spirv@.len() > 0,
            spirv@.len() % 4 == 0,
            push@.len() <= MAX_PUSH_BYTES,
            0 < buffers@.len() <= MAX_BUFFERS,
        decreases 3 - dim,
    {
        if groups[dim] > MAX_GROUPS_PER_DIM {
            assert(dim == 0 || dim == 1 || dim == 2);
            return Err(DispatchError::TooManyGroups { dim, groups: groups[dim] });
        }
        dim += 1;
    }
    let mut i: usize = 0;
    while i < buffers.len()
        invariant
            i <= buffers@.len(),
            first_buffer_fault(buffers@, i as int) == first_buffer_fault(buffers@, 0),
            forall|d: int| 0 <= d < 3 ==> #[trigger] groups@[d] <= MAX_GROUPS_PER_DIM,
            spirv@.len() > 0,
            spirv@.len() % 4 == 0,
            push@.len() <= MAX_PUSH_BYTES,
            0 < buffers@.len() <= MAX_BUFFERS,
        decreases buffers@.len() - i,
    {
        let b = &buffers[i];
        if b.bytes == 0 {
            return Err(DispatchError::EmptyBuffer { index: i });
        }
        if b.bytes > MAX_BUFFER_BYTES {
            return Err(DispatchError::BufferTooLarge { index: i, bytes: b.bytes });
        }
        if let Some(data) = &b.upload {
            if data.len() as u64 > b.bytes {
                return Err(
                    DispatchError::UploadTooLong { index: i, len: data.len(), bytes: b.bytes },
                );
            }
        }
        i += 1;
    }
    Ok(())
}

// ---------------------------------------------------------------------------
// The shader

/// The little-endian word `i` of some bytes.
pub open spec fn word_le(b: Seq<u8>, i: int) -> int {
    b[4 * i] + 0x100 * b[4 * i + 1] + 0x1_0000 * b[4 * i + 2] + 0x100_0000 * b[4 * i + 3]
}

/// The big-endian word `i` of some bytes.
pub open spec fn word_be(b: Seq<u8>, i: int) -> int {
    0x100_0000 * b[4 * i] + 0x1_0000 * b[4 * i + 1] + 0x100 * b[4 * i + 2] + b[4 * i + 3]
}

/// Bytes that are a shader: whole words, the first of which is the magic number
/// in one of the two byte orders.
pub open spec fn is_spirv(b: Seq<u8>) -> bool {
    b.len() > 0 && b.len() % 4 == 0 && (word_le(b, 0) == SPIRV_MAGIC || word_be(b, 0)
        == SPIRV_MAGIC)
}

/// The words of a shader, in the byte order in which its magic number stands.
pub open spec fn spirv_words(b: Seq<u8>) -> Seq<u32> {
    Seq::new(
        b.len() / 4,
        |i: int|
            if word_le(b, 0) == SPIRV_MAGIC {
                word_le(b, i) as u32
            } else {
                word_be(b, i) as u32
            },
    )
}

/// `ash::util::read_spv` decodes a shader from bytes of either byte order. It
/// fails where the length is no multiple of four or the first word is the magic
/// number in neither order, an empty input among them; otherwise it returns the
/// words in the order of the magic number.
#[verifier::external_body]
fn read_spv(bytes: &[u8]) -> (r: Option<Vec<u32>>)
    ensures
        r is Some <==> is_spirv(bytes@),
        r is Some ==> (r->0)@ == spirv_words(bytes@),
{
    ash::util::read_spv(&mut std::io::Cursor::new(bytes)).ok()
}

/// What is handed to the device for a checked dispatch.
#[derive(Debug)]
pub struct Prepared {
    /// Words of the shader.
    pub code: Vec<u32>,
    /// Push constants in whole words, zeroes behind.
    pub push: Vec<u8>,
}

/// Bytes padded with zeroes to whole words.
pub open spec fn padded_push(push: Seq<u8>) -> Seq<u8> {
    push + Seq::new(((4 - push.len() % 4) % 4) as nat, |i: int| 0u8)
}

/// Brings shader and push constants into the form that the device takes.
pub fn prepare(spirv: &[u8], push: &[u8]) -> (r: Result<Prepared, DispatchError>)
    requires
        push@.len() <= MAX_PUSH_BYTES,
    ensures
        !is_spirv(spirv@) ==> r is Err && r->Err_0 == DispatchError::BadSpirv,
        is_spirv(spirv@) ==> r is Ok && (r->Ok_0).code@ == spirv_words(spirv@) && (r->Ok_0).push@
            == padded_push(push@),
{
    match read_spv(spirv) {
        Some(code) => {
            let mut padded: Vec<u8> = Vec::new();
            let mut i: usize = 0;
            while i < push.len()
                invariant
                    i <= push@.len(),
                    padded@ == push@.take(i as int),
                decreases push@.len() - i,
            {
                padded.push(push[i]);
                i += 1;
                assert(padded@ =~= push@.take(i as int));
            }
            let want: usize = (push.len() + 3) / 4 * 4;
            while padded.len() < want
                invariant
                    push@.len() <= padded@.len() <= want,
                    want == (push@.len() + 3) / 4 * 4,
                    forall|k: int| 0 <= k < push@.len() ==> #[trigger] padded@[k] == push@[k],
                    forall|k: int| push@.len() <= k < padded@.len() ==> #[trigger] padded@[k] == 0,
                decreases want - padded@.len(),
            {
                padded.push(0);
            }
            assert(padded@ =~= padded_push(push@));
            Ok(Prepared { code, push: padded })
        },
        None => Err(DispatchError::BadSpirv),
    }
}

// ---------------------------------------------------------------------------
// Choosing memory, device and queue

/// A memory type that a buffer can use: its bit is set in `bits` and it has all
/// the wanted properties.
pub open spec fn suits(props: Seq<u32>, bits: u32, flags: u32, i: int) -> bool {
    (bits >> i as u32) & 1 == 1 && props[i] & flags == flags
}

/// `r` is the first memory type that suits, or none does.
pub open spec fn first_suiting(props: Seq<u32>, bits: u32, flags: u32, r: Option<u32>) -> bool {
    match r {
        Some(i) => i < props.len() && suits(props, bits, flags, i as int) && forall|j: int|
            0 <= j < i ==> !suits(props, bits, flags, j),
        None => forall|j: int| 0 <= j < props.len() ==> !suits(props, bits, flags, j),
    }
}

/// The first memory type that a buffer can use, from the properties of the
/// types in order.
pub fn find_mem(props: &Vec<u32>, bits: u32, flags: u32) -> (r: Option<u32>)
    requires
        props@.len() <= 32,
    ensures
        first_suiting(props@, bits, flags, r),
{
    let mut i: u32 = 0;
    while (i as usize) < props.len()
        invariant
            props@.len() <= 32,
            i <= props@.len(),
            forall|j: int| 0 <= j < i ==> !suits(props@, bits, flags, j),
        decreases props@.len() - i,
    {
        if (bits >> i) & 1 == 1 && props[i as usize] & flags == flags {
            return Some(i);
        }
        i += 1;
    }
    None
}

/// The memory type of a host buffer: one that needs no flushes where there is
/// one, else one that the host can map.
pub fn host_mem(props: &Vec<u32>, bits: u32) -> (r: Option<u32>)
    requires
        props@.len() <= 32,
    ensures
        r is Some && first_suiting(props@, bits, HOST_VISIBLE_COHERENT, r) || (first_suiting(
            props@,
            bits,
            HOST_VISIBLE_COHERENT,
            None,
        ) && first_suiting(props@, bits, HOST_VISIBLE, r)),
        r is Some && first_suiting(props@, bits, 6, r) || (first_suiting(props@, bits, 6, None)
            && first_suiting(props@, bits, 2, r)),
{
    let coherent = find_mem(props, bits, HOST_VISIBLE_COHERENT);
    if coherent.is_some() {
        coherent
    } else {
        find_mem(props, bits, HOST_VISIBLE)
    }
}

/// The device is drawn by the CPU.
pub open spec fn is_software(name: Seq<char>) -> bool {
    let u = text::upper(name);
    text::occurs(u, "LLVMPIPE"@) || text::occurs(u, "SOFTWARE"@) || text::occurs(u, "CPU"@)
}

/// The device to use, by the names of the devices in order: the first real GPU,
/// else the first of all.
pub fn pick_device(names: &Vec<String>) -> (r: Option<usize>)
    ensures
        match r {
            Some(i) => {
                &&& i < names@.len()
                &&& (!is_software(names@[i as int]@) && forall|j: int|
                    0 <= j < i ==> is_software(#[trigger] names@[j]@)) || (i == 0 && forall|j: int|
                    0 <= j < names@.len() ==> is_software(#[trigger] names@[j]@))
            },
            None => names@.len() == 0,
        },
{
    if names.len() == 0 {
        return None;
    }
    let mut i: usize = 0;
    while i < names.len()
        invariant
            i <= names@.len(),
            names@.len() > 0,
            forall|j: int| 0 <= j < i ==> is_software(#[trigger] names@[j]@),
        decreases names@.len() - i,
    {
        let u = text::uppercase(names[i].as_str());
        if !text::contains(u.as_str(), "LLVMPIPE") && !text::contains(u.as_str(), "SOFTWARE")
            && !text::contains(u.as_str(), "CPU") {
            return Some(i);
        }
        i += 1;
    }
    Some(0)
}

/// The first queue family that takes compute work, from the flags of the
/// families in order.
pub fn compute_queue_family(flags: &Vec<u32>) -> (r: Option<usize>)
    ensures
        match r {
            Some(i) => i < flags@.len() && flags@[i as int] & QUEUE_COMPUTE == QUEUE_COMPUTE
                && forall|j: int|
                0 <= j < i ==> (#[trigger] flags@[j]) & QUEUE_COMPUTE != QUEUE_COMPUTE,
            None => forall|j: int|
                0 <= j < flags@.len() ==> (#[trigger] flags@[j]) & QUEUE_COMPUTE != QUEUE_COMPUTE,
        },
        r matches Some(i) ==> flags@[i as int] & 2 == 2,
{
    let mut i: usize = 0;
    while i < flags.len()
        invariant
            i <= flags@.len(),
            forall|j: int|
                0 <= j < i ==> (#[trigger] flags@[j]) & QUEUE_COMPUTE != QUEUE_COMPUTE,
        decreases flags@.len() - i,
    {
        if flags[i] & QUEUE_COMPUTE == QUEUE_COMPUTE {
            return Some(i);
        }
        i += 1;
    }
    None
}

// ---------------------------------------------------------------------------
// Laws

/// A buffer that the device takes: not empty, at most two gigabytes, and long
/// enough for what is put into it.
pub open spec fn fits(b: BufSpec) -> bool {
    &&& 0 < b.bytes <= 0x8000_0000
    &&& b.upload matches Some(data) ==> data@.len() <= b.bytes
}

/// A dispatch is accepted exactly where its shader is whole words and not empty,
/// its push constants are at most 128 bytes, it has one to eight buffers that
/// all fit, and at most 65535 groups in each dimension.
pub proof fn accepted_dispatch(spirv: Seq<u8>, groups: Seq<u32>, push: Seq<u8>, buffers: Seq<BufSpec>)
    requires
        groups.len() == 3,
    ensures
        fault(spirv, groups, push, buffers) is None <==> {
            &&& spirv.len() > 0
            &&& spirv.len() % 4 == 0
            &&& push.len() <= 128
            &&& 1 <= buffers.len() <= 8
            &&& forall|d: int| 0 <= d < 3 ==> #[trigger] groups[d] <= 65535
            &&& forall|i: int| 0 <= i < buffers.len() ==> fits(#[trigger] buffers[i])
        },
{
    no_fault_means_all_fit(buffers, 0);
    if group_fault(groups) is None {
        assert(groups[0] <= 65535 && groups[1] <= 65535 && groups[2] <= 65535);
        assert forall|d: int| 0 <= d < 3 implies #[trigger] groups[d] <= 65535 by {
            assert(d == 0 || d == 1 || d == 2);
        }
    } else {
        assert(groups[0] > 65535 || groups[1] > 65535 || groups[2] > 65535);
    }
}

proof fn no_fault_means_all_fit(buffers: Seq<BufSpec>, from: int)
    requires
        0 <= from <= buffers.len(),
    ensures
        first_buffer_fault(buffers, from) is None <==> forall|i: int|
            from <= i < buffers.len() ==> fits(#[trigger] buffers[i]),
    decreases buffers.len() - from,
{
    if from < buffers.len() {
        no_fault_means_all_fit(buffers, from + 1);
        assert(buffer_fault(from, buffers[from]) is None <==> fits(buffers[from]));
        if first_buffer_fault(buffers, from) is None {
            assert forall|i: int| from <= i < buffers.len() implies fits(#[trigger] buffers[i]) by {
                assert(i == from || from + 1 <= i);
            }
        }
    }
}

/// The first buffer at fault is the one that is named, and its fault says what is
/// wrong with it.
pub proof fn faulty_buffer_is_named(buffers: Seq<BufSpec>, at: int)
    requires
        0 <= at < buffers.len(),
        buffers.len() <= 8,
        !fits(buffers[at]),
        forall|i: int| 0 <= i < at ==> fits(#[trigger] buffers[i]),
    ensures
        ({
            let b = buffers[at];
            let e = first_buffer_fault(buffers, 0);
            &&& b.bytes == 0 ==> e == Some(DispatchError::EmptyBuffer { index: at as usize })
            &&& b.bytes > 0x8000_0000 ==> e == Some(
                DispatchError::BufferTooLarge { index: at as usize, bytes: b.bytes },
            )
            &&& 0 < b.bytes <= 0x8000_0000 ==> e is Some && (e->0
                matches DispatchError::UploadTooLong { index, len, bytes } && index == at && bytes
                == b.bytes)
        }),
{
    skipped_to_the_fault(buffers, at, 0);
}

proof fn skipped_to_the_fault(buffers: Seq<BufSpec>, at: int, from: int)
    requires
        0 <= from <= at < buffers.len(),
        !fits(buffers[at]),
        forall|i: int| 0 <= i < at ==> fits(#[trigger] buffers[i]),
    ensures
        first_buffer_fault(buffers, from) == buffer_fault(at, buffers[at]),
    decreases at - from,
{
    if from < at {
        assert(fits(buffers[from]));
        skipped_to_the_fault(buffers, at, from + 1);
    }
}

/// A shader begins with the magic number in one of the two byte orders.
pub proof fn shader_begins_with_its_magic(b: Seq<u8>)
    requires
        b.len() >= 4,
        b.len() % 4 == 0,
    ensures
        is_spirv(b) <==> (b[0] == 0x03 && b[1] == 0x02 && b[2] == 0x23 && b[3] == 0x07) || (b[0]
            == 0x07 && b[1] == 0x23 && b[2] == 0x02 && b[3] == 0x03),
{
}

/// A shader with the bytes of every word turned round is the same shader: its
/// words are those of the other byte order.
pub proof fn both_byte_orders_are_one_shader(a: Seq<u8>, b: Seq<u8>)
    requires
        is_spirv(a),
        a.len() == b.len(),
        forall|i: int|
            0 <= i < a.len() / 4 ==> (#[trigger] a[4 * i]) == b[4 * i + 3] && a[4 * i + 1] == b[4
                * i + 2] && a[4 * i + 2] == b[4 * i + 1] && a[4 * i + 3] == b[4 * i],
    ensures
        is_spirv(b),
        spirv_words(b) == spirv_words(a),
{
    let first: int = 0;
    assert(a[4 * first] == b[4 * first + 3]);
    assert(word_le(a, 0) == word_be(b, 0) && word_be(a, 0) == word_le(b, 0));
    assert forall|i: int| 0 <= i < a.len() / 4 implies spirv_words(b)[i] == spirv_words(a)[i] by {
        assert(a[4 * i] == b[4 * i + 3]);
        assert(word_le(a, i) == word_be(b, i) && word_be(a, i) == word_le(b, i));
    }
    assert(spirv_words(b) =~= spirv_words(a));
}

/// The bytes of a word can be read back from it.
pub proof fn word_holds_its_bytes(b: Seq<u8>, i: int)
    ensures
        word_le(b, i) % 256 == b[4 * i],
        (word_le(b, i) / 256) % 256 == b[4 * i + 1],
        (word_le(b, i) / 65536) % 256 == b[4 * i + 2],
        word_le(b, i) / 16777216 == b[4 * i + 3],
{
}

/// Push constants are kept and filled up with zeroes to the next whole word.
pub proof fn push_is_filled_up(push: Seq<u8>)
    ensures
        padded_push(push).len() % 4 == 0,
        push.len() <= padded_push(push).len() < push.len() + 4,
        padded_push(push).take(push.len() as int) == push,
        forall|i: int| push.len() <= i < padded_push(push).len() ==> #[trigger] padded_push(push)[i] == 0,
{
    assert(padded_push(push).take(push.len() as int) =~= push);
}

/// A buffer begins with what is put into it, is as long as it was asked for and
/// holds zeroes behind.
pub proof fn buffer_is_filled_up(b: BufSpec)
    requires
        fits(b),
    ensures
        b.contents().len() == b.bytes,
        b.upload matches Some(data) ==> b.contents().take(data@.len() as int) == data@,
        b.upload matches Some(data) ==> forall|i: int|
            data@.len() <= i < b.bytes ==> #[trigger] b.contents()[i] == 0,
        b.upload is None ==> forall|i: int| 0 <= i < b.bytes ==> #[trigger] b.contents()[i] == 0,
{
    if b.upload is Some {
        let data = b.upload->0;
        assert(b.contents().take(data@.len() as int) =~= data@);
    }
}

/// A device whose upper-case name holds one of three words is drawn by the CPU.
pub proof fn software_is_told_by_its_name(before: Seq<char>, behind: Seq<char>)
    ensures
        text::upper(before + "LLVMPIPE"@ + behind) == before + "LLVMPIPE"@ + behind ==> is_software(
            before + "LLVMPIPE"@ + behind,
        ),
        text::upper(before + "SOFTWARE"@ + behind) == before + "SOFTWARE"@ + behind ==> is_software(
            before + "SOFTWARE"@ + behind,
        ),
        text::upper(before + "CPU"@ + behind) == before + "CPU"@ + behind ==> is_software(
            before + "CPU"@ + behind,
        ),
{
    text::part_occurs(before, "LLVMPIPE"@, behind);
    text::part_occurs(before, "SOFTWARE"@, behind);
    text::part_occurs(before, "CPU"@, behind);
}

/// Memory with more of the wanted properties suits wherever fewer are wanted, and
/// where no type is allowed none suits.
pub proof fn fewer_wishes_are_easier(props: Seq<u32>, bits: u32, flags: u32, fewer: u32, i: int)
    requires
        flags & fewer == fewer,
        0 <= i < 32,
    ensures
        suits(props, bits, flags, i) ==> suits(props, bits, fewer, i),
        !suits(props, 0, flags, i),
        suits(props, 0xFFFF_FFFF, 0, i),
{
    let p = props[i];
    let k = i as u32;
    assert(p & flags == flags ==> p & fewer == fewer) by (bit_vector)
        requires
            flags & fewer == fewer,
    ;
    assert((0u32 >> k) & 1 == 0 && (0xFFFF_FFFFu32 >> k) & 1 == 1 && p & 0 == 0) by (bit_vector)
        requires
            k < 32,
    ;
}

} // verus!
