//! Contract reflection of SPIR-V compute modules for the host compute backend.
//!
//! Accepted profile: SPIR-V 1.0 to 1.3, the Shader capability alone, the
//! Logical/GLSL450 memory model, one GLCompute entry point with a literal
//! LocalSize, and scalar StorageBuffer descriptors in set zero. No images,
//! descriptor arrays, push constants, shared memory, specialization constants
//! or decoration groups. Opcode and enumerant numbers follow the Khronos
//! unified SPIR-V grammar. This reflection does not replace a full semantic
//! validation of the module.
use vstd::prelude::*;
use std::collections::{BTreeSet, HashMap, HashSet};
use crate::compute::ComputeError;

verus! {

broadcast use vstd::std_specs::hash::group_hash_axioms;

/// First word of every SPIR-V module.
pub const SPIRV_MAGIC: u32 = 0x0723_0203;
/// Smallest module: the five header words.
pub const MIN_MODULE_BYTES: usize = 20;
/// Largest module accepted.
pub const MAX_MODULE_BYTES: usize = 65536;
/// Longest entry-point name accepted, in bytes.
pub const MAX_ENTRY_NAME_BYTES: usize = 64;
/// Largest id bound accepted in the header.
pub const MAX_ID_BOUND: u32 = 1_000_000;

/// Why a module falls outside the accepted profile.
#[derive(Debug, Clone, Copy, PartialEq, Eq, Structural)]
pub enum SpirvFault {
    Bounds,
    Header,
    Truncated,
    UnsupportedFeature,
    MemoryModel,
    EntryPoint,
    UnterminatedName,
    EntryMismatch,
    LocalSize,
    Capability,
    NumericWidth,
    TruncatedVariable,
    StorageClass,
    TruncatedDecorate,
    DuplicateBuiltin,
    DescriptorDecoration,
    DuplicateDescriptor,
    DecorationGroups,
    MissingLocalSize,
    Incomplete,
    BuiltinNotConstant,
    BuiltinMismatch,
    MissingPointer,
    NotBlock,
    MissingBinding,
    SetZero,
    Unreflected,
}

impl SpirvFault {
    pub open spec fn spec_message(&self) -> Seq<char> {
        match self {
            SpirvFault::Bounds => "SPIR-V byte/entry-point bounds"@,
            SpirvFault::Header => "SPIR-V header/version"@,
            SpirvFault::Truncated => "truncated SPIR-V instruction"@,
            SpirvFault::UnsupportedFeature => "unsupported SPIR-V extension/image/specialization"@,
            SpirvFault::MemoryModel => "require one Logical/GLSL450 memory model"@,
            SpirvFault::EntryPoint => "require one GLCompute entry point"@,
            SpirvFault::UnterminatedName => "unterminated entry point"@,
            SpirvFault::EntryMismatch => "SPIR-V entry point mismatch"@,
            SpirvFault::LocalSize => "only literal LocalSize execution mode supported"@,
            SpirvFault::Capability => "only Shader capability supported"@,
            SpirvFault::NumericWidth => "only 32-bit shader numeric types supported"@,
            SpirvFault::TruncatedVariable => "truncated OpVariable"@,
            SpirvFault::StorageClass => "unsupported shader storage class"@,
            SpirvFault::TruncatedDecorate => "truncated OpDecorate"@,
            SpirvFault::DuplicateBuiltin => "duplicate WorkgroupSize builtin"@,
            SpirvFault::DescriptorDecoration => "invalid descriptor decoration"@,
            SpirvFault::DuplicateDescriptor => "duplicate descriptor decoration"@,
            SpirvFault::DecorationGroups => "SPIR-V decoration groups unsupported"@,
            SpirvFault::MissingLocalSize => "missing literal LocalSize"@,
            SpirvFault::Incomplete => "incomplete SPIR-V compute profile"@,
            SpirvFault::BuiltinNotConstant => "WorkgroupSize must be a literal constant vector"@,
            SpirvFault::BuiltinMismatch => "WorkgroupSize builtin differs from LocalSize"@,
            SpirvFault::MissingPointer => "missing storage pointer type"@,
            SpirvFault::NotBlock => "storage descriptor must point to a Block struct, not an array"@,
            SpirvFault::MissingBinding => "missing storage Binding"@,
            SpirvFault::SetZero => "storage descriptors require unique bindings in set zero"@,
            SpirvFault::Unreflected => "unreflected/empty descriptor bindings"@,
        }
    }

    pub fn message(&self) -> (r: String)
        ensures
            r@ == self.spec_message(),
    {
        let s: &str = match self {
            SpirvFault::Bounds => "SPIR-V byte/entry-point bounds",
            SpirvFault::Header => "SPIR-V header/version",
            SpirvFault::Truncated => "truncated SPIR-V instruction",
            SpirvFault::UnsupportedFeature => "unsupported SPIR-V extension/image/specialization",
            SpirvFault::MemoryModel => "require one Logical/GLSL450 memory model",
            SpirvFault::EntryPoint => "require one GLCompute entry point",
            SpirvFault::UnterminatedName => "unterminated entry point",
            SpirvFault::EntryMismatch => "SPIR-V entry point mismatch",
            SpirvFault::LocalSize => "only literal LocalSize execution mode supported",
            SpirvFault::Capability => "only Shader capability supported",
            SpirvFault::NumericWidth => "only 32-bit shader numeric types supported",
            SpirvFault::TruncatedVariable => "truncated OpVariable",
            SpirvFault::StorageClass => "unsupported shader storage class",
            SpirvFault::TruncatedDecorate => "truncated OpDecorate",
            SpirvFault::DuplicateBuiltin => "duplicate WorkgroupSize builtin",
            SpirvFault::DescriptorDecoration => "invalid descriptor decoration",
            SpirvFault::DuplicateDescriptor => "duplicate descriptor decoration",
            SpirvFault::DecorationGroups => "SPIR-V decoration groups unsupported",
            SpirvFault::MissingLocalSize => "missing literal LocalSize",
            SpirvFault::Incomplete => "incomplete SPIR-V compute profile",
            SpirvFault::BuiltinNotConstant => "WorkgroupSize must be a literal constant vector",
            SpirvFault::BuiltinMismatch => "WorkgroupSize builtin differs from LocalSize",
            SpirvFault::MissingPointer => "missing storage pointer type",
            SpirvFault::NotBlock => "storage descriptor must point to a Block struct, not an array",
            SpirvFault::MissingBinding => "missing storage Binding",
            SpirvFault::SetZero => "storage descriptors require unique bindings in set zero",
            SpirvFault::Unreflected => "unreflected/empty descriptor bindings",
        };
        String::from_str(s)
    }
}

/// A byte that may stand in an entry-point name: an ASCII letter or digit, or `_`.
pub open spec fn spec_name_byte_ok(c: u8) -> bool {
    ||| 48 <= c <= 57
    ||| 65 <= c <= 90
    ||| 97 <= c <= 122
    ||| c == 95
}

/// The module's size and the requested entry-point name are within bounds.
pub open spec fn spec_bounds_ok(b: Seq<u8>, e: Seq<u8>) -> bool {
    &&& MIN_MODULE_BYTES <= b.len() <= MAX_MODULE_BYTES
    &&& b.len() % 4 == 0
    &&& 1 <= e.len() <= MAX_ENTRY_NAME_BYTES
    &&& forall|k: int| 0 <= k < e.len() ==> spec_name_byte_ok(#[trigger] e[k])
}

/// The little-endian word made of bytes `4 * i .. 4 * i + 4`.
pub open spec fn spec_le_word(b: Seq<u8>, i: int) -> u32 {
    (b[4 * i] + 256 * b[4 * i + 1] + 65536 * b[4 * i + 2] + 16777216 * b[4 * i + 3]) as u32
}

/// The module's little-endian words.
pub open spec fn spec_words(b: Seq<u8>) -> Seq<u32> {
    Seq::new(b.len() / 4, |i: int| spec_le_word(b, i))
}

/// The header: magic number, a version from 1.0 to 1.3, an id bound in
/// `1..=MAX_ID_BOUND`, and a zero schema word.
pub open spec fn spec_header_ok(w: Seq<u32>) -> bool {
    &&& w[0] == SPIRV_MAGIC
    &&& (w[1] == 0x0001_0000 || w[1] == 0x0001_0100 || w[1] == 0x0001_0200 || w[1] == 0x0001_0300)
    &&& w[3] != 0
    &&& w[3] <= MAX_ID_BOUND
    &&& w[4] == 0
}


/// What a scan of the module's instructions has gathered so far.
#[verifier::ext_equal]
pub struct ScanState {
    /// Id of the GLCompute entry point.
    pub entry: Option<u32>,
    /// Entry id and the three LocalSize literals.
    pub local: Option<(u32, u32, u32, u32)>,
    /// Whether the memory model was declared.
    pub model: bool,
    /// Whether the Shader capability was declared.
    pub capability: bool,
    /// Binding decoration of each decorated id.
    pub bindings: Map<u32, u32>,
    /// DescriptorSet decoration of each decorated id.
    pub sets: Map<u32, u32>,
    /// Storage class and pointee type of each pointer type.
    pub pointers: Map<u32, (u32, u32)>,
    /// Struct type ids.
    pub structures: Set<u32>,
    /// Ids decorated Block.
    pub block_types: Set<u32>,
    /// Pointer type and id of each StorageBuffer variable, in order.
    pub variables: Seq<(u32, u32)>,
    /// Value of each 32-bit scalar constant.
    pub constants: Map<u32, u32>,
    /// Constituents of each three-element constant composite.
    pub composites: Map<u32, (u32, u32, u32)>,
    /// Id decorated with the WorkgroupSize builtin.
    pub builtin: Option<u32>,
}

/// Nothing gathered yet.
pub open spec fn spec_initial() -> ScanState {
    ScanState {
        entry: None,
        local: None,
        model: false,
        capability: false,
        bindings: Map::empty(),
        sets: Map::empty(),
        pointers: Map::empty(),
        structures: Set::empty(),
        block_types: Set::empty(),
        variables: Seq::empty(),
        constants: Map::empty(),
        composites: Map::empty(),
        builtin: None,
    }
}

/// The four little-endian bytes of a word.
pub open spec fn spec_le_bytes(w: u32) -> Seq<u8> {
    seq![(w % 256) as u8, ((w / 256) % 256) as u8, ((w / 65536) % 256) as u8, (w / 16777216) as u8]
}

/// The little-endian bytes of a run of words.
pub open spec fn spec_word_bytes(ws: Seq<u32>) -> Seq<u8>
    decreases ws.len(),
{
    if ws.len() == 0 {
        Seq::empty()
    } else {
        spec_word_bytes(ws.drop_last()) + spec_le_bytes(ws.last())
    }
}

/// `k` is the position of the first zero byte of `s`.
pub open spec fn spec_first_nul(s: Seq<u8>, k: int) -> bool {
    &&& 0 <= k < s.len()
    &&& s[k] == 0
    &&& forall|j: int| 0 <= j < k ==> s[j] != 0
}

/// How the nul-terminated name held in words `ws` compares with `e`: `None`
/// when it is `e`.
pub open spec fn spec_name_fault(ws: Seq<u32>, e: Seq<u8>) -> Option<SpirvFault> {
    let s = spec_word_bytes(ws);
    if exists|k: int| spec_first_nul(s, k) {
        let end = choose|k: int| spec_first_nul(s, k);
        if s.subrange(0, end) =~= e {
            None
        } else {
            Some(SpirvFault::EntryMismatch)
        }
    } else {
        Some(SpirvFault::UnterminatedName)
    }
}

/// Opcodes of extensions, images and specialization constants.
pub open spec fn spec_unsupported_opcode(op: u32) -> bool {
    op == 10 || (25 <= op <= 27) || (48 <= op <= 52) || op == 331
}

/// What the OpDecorate instruction `ins` does to `st`.
pub open spec fn spec_decorate(st: ScanState, ins: Seq<u32>) -> Result<ScanState, SpirvFault> {
    let count = ins.len();
    if count < 3 {
        Err(SpirvFault::TruncatedDecorate)
    } else if ins[2] == 2 {
        Ok(ScanState { block_types: st.block_types.insert(ins[1]), ..st })
    } else if ins[2] == 11 && count == 4 && ins[3] == 25 {
        if st.builtin is Some {
            Err(SpirvFault::DuplicateBuiltin)
        } else {
            Ok(ScanState { builtin: Some(ins[1]), ..st })
        }
    } else if ins[2] == 33 || ins[2] == 34 {
        if count != 4 {
            Err(SpirvFault::DescriptorDecoration)
        } else if ins[2] == 33 {
            if st.bindings.contains_key(ins[1]) {
                Err(SpirvFault::DuplicateDescriptor)
            } else {
                Ok(ScanState { bindings: st.bindings.insert(ins[1], ins[3]), ..st })
            }
        } else {
            if st.sets.contains_key(ins[1]) {
                Err(SpirvFault::DuplicateDescriptor)
            } else {
                Ok(ScanState { sets: st.sets.insert(ins[1], ins[3]), ..st })
            }
        }
    } else {
        Ok(st)
    }
}

/// What the instruction `ins` (its first word holds its length and opcode)
/// does to `st`, with `e` the requested entry-point name.
#[verifier::opaque]
pub open spec fn spec_step(st: ScanState, ins: Seq<u32>, e: Seq<u8>) -> Result<ScanState, SpirvFault> {
    let op = ins[0] & 0xffff;
    let count = ins.len();
    if spec_unsupported_opcode(op) {
        Err(SpirvFault::UnsupportedFeature)
    } else if op == 14 {
        if !(count == 3 && ins[0] == 0x0003_000e && ins[1] == 0 && ins[2] == 1) || st.model {
            Err(SpirvFault::MemoryModel)
        } else {
            Ok(ScanState { model: true, ..st })
        }
    } else if op == 15 {
        if count < 4 || ins[1] != 5 || st.entry is Some {
            Err(SpirvFault::EntryPoint)
        } else {
            match spec_name_fault(ins.subrange(3, count as int), e) {
                Some(f) => Err(f),
                None => Ok(ScanState { entry: Some(ins[2]), ..st }),
            }
        }
    } else if op == 16 {
        if count != 6 || ins[2] != 17 || st.local is Some {
            Err(SpirvFault::LocalSize)
        } else {
            Ok(ScanState { local: Some((ins[1], ins[3], ins[4], ins[5])), ..st })
        }
    } else if op == 17 {
        if count != 2 || ins[1] != 1 || st.capability {
            Err(SpirvFault::Capability)
        } else {
            Ok(ScanState { capability: true, ..st })
        }
    } else if op == 21 || op == 22 {
        if count < 3 || ins[2] != 32 {
            Err(SpirvFault::NumericWidth)
        } else {
            Ok(st)
        }
    } else if op == 30 && count >= 2 {
        Ok(ScanState { structures: st.structures.insert(ins[1]), ..st })
    } else if op == 32 && count == 4 {
        Ok(ScanState { pointers: st.pointers.insert(ins[1], (ins[2], ins[3])), ..st })
    } else if op == 43 && count == 4 {
        Ok(ScanState { constants: st.constants.insert(ins[2], ins[3]), ..st })
    } else if op == 44 && count == 6 {
        Ok(ScanState { composites: st.composites.insert(ins[2], (ins[3], ins[4], ins[5])), ..st })
    } else if op == 59 {
        if count < 4 {
            Err(SpirvFault::TruncatedVariable)
        } else if ins[3] == 12 {
            Ok(ScanState { variables: st.variables.push((ins[1], ins[2])), ..st })
        } else if ins[3] == 1 || ins[3] == 6 || ins[3] == 7 {
            Ok(st)
        } else {
            Err(SpirvFault::StorageClass)
        }
    } else if op == 71 {
        spec_decorate(st, ins)
    } else if 73 <= op <= 75 {
        Err(SpirvFault::DecorationGroups)
    } else {
        Ok(st)
    }
}

/// The scan of the instructions from word `at` on, starting from `st`.
pub open spec fn spec_scan(w: Seq<u32>, e: Seq<u8>, at: int, st: ScanState) -> Result<ScanState, SpirvFault>
    decreases w.len() - at,
{
    if at < 0 || at >= w.len() {
        Ok(st)
    } else {
        let count = (w[at] >> 16) as int;
        if count == 0 || count > w.len() - at {
            Err(SpirvFault::Truncated)
        } else {
            match spec_step(st, w.subrange(at, at + count), e) {
                Err(f) => Err(f),
                Ok(next) => spec_scan(w, e, at + count, next),
            }
        }
    }
}

/// Bindings of the StorageBuffer variables from the `i`-th on, appended to
/// `found`: each must point to a Block struct and carry a binding, unique so
/// far, in descriptor set zero.
pub open spec fn spec_collect(st: ScanState, i: int, found: Seq<u32>) -> Result<Seq<u32>, SpirvFault>
    decreases st.variables.len() - i,
{
    if i < 0 || i >= st.variables.len() {
        Ok(found)
    } else {
        let ptr = st.variables[i].0;
        let id = st.variables[i].1;
        if !st.pointers.contains_key(ptr) {
            Err(SpirvFault::MissingPointer)
        } else if st.pointers[ptr].0 != 12 || !st.structures.contains(st.pointers[ptr].1)
            || !st.block_types.contains(st.pointers[ptr].1) {
            Err(SpirvFault::NotBlock)
        } else if !st.bindings.contains_key(id) {
            Err(SpirvFault::MissingBinding)
        } else if !(st.sets.contains_key(id) && st.sets[id] == 0) || found.contains(st.bindings[id]) {
            Err(SpirvFault::SetZero)
        } else {
            spec_collect(st, i + 1, found.push(st.bindings[id]))
        }
    }
}

/// A WorkgroupSize builtin, where there is one, names a constant vector whose
/// constituents are constants equal to LocalSize `x, y, z`.
pub open spec fn spec_builtin_fault(st: ScanState, x: u32, y: u32, z: u32) -> Option<SpirvFault> {
    match st.builtin {
        None => None,
        Some(b) => if !st.composites.contains_key(b) {
            Some(SpirvFault::BuiltinNotConstant)
        } else {
            let ids = st.composites[b];
            if st.constants.contains_key(ids.0) && st.constants[ids.0] == x
                && st.constants.contains_key(ids.1) && st.constants[ids.1] == y
                && st.constants.contains_key(ids.2) && st.constants[ids.2] == z {
                None
            } else {
                Some(SpirvFault::BuiltinMismatch)
            }
        },
    }
}

/// The profile of a module whose scan ended in `st`: its words, its
/// LocalSize and the bindings of its storage variables.
pub open spec fn spec_finish(st: ScanState, w: Seq<u32>) -> Result<(Seq<u32>, Seq<u32>, Seq<u32>), SpirvFault> {
    match st.local {
        None => Err(SpirvFault::MissingLocalSize),
        Some((id, x, y, z)) => if !st.model || !st.capability || st.entry != Some(id) || x == 0
            || y == 0 || z == 0 {
            Err(SpirvFault::Incomplete)
        } else {
            match spec_builtin_fault(st, x, y, z) {
                Some(f) => Err(f),
                None => match spec_collect(st, 0, Seq::empty()) {
                    Err(f) => Err(f),
                    Ok(found) => if found.len() == 0 || found.len() != st.bindings.len()
                        || found.len() != st.sets.len() {
                        Err(SpirvFault::Unreflected)
                    } else {
                        Ok((w, seq![x, y, z], found))
                    },
                },
            }
        },
    }
}

/// The reflection of module bytes `b` for the entry point named by bytes `e`:
/// its words, LocalSize and storage bindings, or the first fault.
pub open spec fn spec_inspect(b: Seq<u8>, e: Seq<u8>) -> Result<(Seq<u32>, Seq<u32>, Seq<u32>), SpirvFault> {
    if !spec_bounds_ok(b, e) {
        Err(SpirvFault::Bounds)
    } else if !spec_header_ok(spec_words(b)) {
        Err(SpirvFault::Header)
    } else {
        match spec_scan(spec_words(b), e, 5, spec_initial()) {
            Err(f) => Err(f),
            Ok(st) => spec_finish(st, spec_words(b)),
        }
    }
}

/// The collected bindings extend `found` and repeat none of them.
pub proof fn lemma_collect_distinct(st: ScanState, i: int, found: Seq<u32>)
    requires
        found.no_duplicates(),
        spec_collect(st, i, found) is Ok,
    ensures
        spec_collect(st, i, found)->Ok_0.no_duplicates(),
        spec_collect(st, i, found)->Ok_0.len() >= found.len(),
    decreases st.variables.len() - i,
{
    if 0 <= i < st.variables.len() {
        let id = st.variables[i].1;
        let next = found.push(st.bindings[id]);
        assert forall|a: int, c: int| 0 <= a < c < next.len() implies next[a] != next[c] by {
            if c == found.len() {
                assert(found.contains(found[a]));
            }
        }
        lemma_collect_distinct(st, i + 1, next);
    }
}

/// Every module that the reflection accepts is within the byte and name
/// bounds, has a valid header, a nonzero LocalSize, and at least one storage
/// binding with none repeated; its words are the little-endian decoding of
/// its bytes.
pub proof fn law_accepted_profile(b: Seq<u8>, e: Seq<u8>)
    requires
        spec_inspect(b, e) is Ok,
    ensures
        spec_bounds_ok(b, e),
        spec_header_ok(spec_words(b)),
        spec_inspect(b, e)->Ok_0.0 == spec_words(b),
        spec_inspect(b, e)->Ok_0.1.len() == 3,
        spec_inspect(b, e)->Ok_0.1[0] != 0,
        spec_inspect(b, e)->Ok_0.1[1] != 0,
        spec_inspect(b, e)->Ok_0.1[2] != 0,
        spec_inspect(b, e)->Ok_0.2.len() > 0,
        spec_inspect(b, e)->Ok_0.2.no_duplicates(),
{
    let st = spec_scan(spec_words(b), e, 5, spec_initial())->Ok_0;
    lemma_collect_distinct(st, 0, Seq::empty());
}

/// What the accepted module declares: its words, its literal LocalSize, and
/// the set of bindings of its storage buffers.
#[derive(Debug, Clone)]
pub struct ShaderProfile {
    pub words: Vec<u32>,
    pub local_size: [u32; 3],
    pub bindings: BTreeSet<u32>,
}

/// The gathered state, held in executable collections.
struct Reflection {
    entry: Option<u32>,
    local: Option<(u32, u32, u32, u32)>,
    model: bool,
    capability: bool,
    bindings: HashMap<u32, u32>,
    sets: HashMap<u32, u32>,
    pointers: HashMap<u32, (u32, u32)>,
    structures: HashSet<u32>,
    block_types: HashSet<u32>,
    variables: Vec<(u32, u32)>,
    constants: HashMap<u32, u32>,
    composites: HashMap<u32, (u32, u32, u32)>,
    builtin: Option<u32>,
}

impl Reflection {
    spec fn state(&self) -> ScanState {
        ScanState {
            entry: self.entry,
            local: self.local,
            model: self.model,
            capability: self.capability,
            bindings: self.bindings@,
            sets: self.sets@,
            pointers: self.pointers@,
            structures: self.structures@,
            block_types: self.block_types@,
            variables: self.variables@,
            constants: self.constants@,
            composites: self.composites@,
            builtin: self.builtin,
        }
    }

    fn new() -> (r: Self)
        ensures
            r.state() == spec_initial(),
    {
        let r = Reflection {
            entry: None,
            local: None,
            model: false,
            capability: false,
            bindings: HashMap::new(),
            sets: HashMap::new(),
            pointers: HashMap::new(),
            structures: HashSet::new(),
            block_types: HashSet::new(),
            variables: Vec::new(),
            constants: HashMap::new(),
            composites: HashMap::new(),
            builtin: None,
        };
        assert(r.state() =~= spec_initial());
        r
    }

    /// Applies the OpDecorate instruction at `words[at..at + count]`.
    fn decorate(&mut self, words: &Vec<u32>, at: usize, count: usize) -> (r: Result<(), SpirvFault>)
        requires
            1 <= count,
            at + count <= words.len(),
        ensures
            match spec_decorate(old(self).state(), words@.subrange(at as int, (at + count) as int)) {
                Ok(s) => r is Ok && final(self).state() == s,
                Err(f) => r == Err::<(), SpirvFault>(f),
            },
    {
        let ghost ins = words@.subrange(at as int, (at + count) as int);
        let ghost st = self.state();
        if count < 3 {
            return Err(SpirvFault::TruncatedDecorate);
        }
        let target = words[at + 1];
        let kind = words[at + 2];
        assert(ins[1] == target && ins[2] == kind);
        if kind == 2 {
            self.block_types.insert(target);
            assert(self.state() =~= ScanState { block_types: st.block_types.insert(target), ..st });
            return Ok(());
        }
        if kind == 11 && count == 4 && words[at + 3] == 25 {
            assert(ins[3] == 25);
            if self.builtin.is_some() {
                return Err(SpirvFault::DuplicateBuiltin);
            }
            self.builtin = Some(target);
            assert(self.state() =~= ScanState { builtin: Some(target), ..st });
            return Ok(());
        }
        if kind == 11 && count == 4 {
            assert(ins[3] == words@[at + 3]);
        }
        if kind == 33 || kind == 34 {
            if count != 4 {
                return Err(SpirvFault::DescriptorDecoration);
            }
            let value = words[at + 3];
            assert(ins[3] == value);
            if kind == 33 {
                if self.bindings.contains_key(&target) {
                    return Err(SpirvFault::DuplicateDescriptor);
                }
                self.bindings.insert(target, value);
                assert(self.state() =~= ScanState { bindings: st.bindings.insert(target, value), ..st });
            } else {
                if self.sets.contains_key(&target) {
                    return Err(SpirvFault::DuplicateDescriptor);
                }
                self.sets.insert(target, value);
                assert(self.state() =~= ScanState { sets: st.sets.insert(target, value), ..st });
            }
            return Ok(());
        }
        Ok(())
    }
    /// Applies the instruction at `words[at..at + count]`.
    fn step(&mut self, words: &Vec<u32>, at: usize, count: usize, name: &[u8]) -> (r: Result<(), SpirvFault>)
        requires
            1 <= count,
            at + count <= words.len(),
        ensures
            match spec_step(old(self).state(), words@.subrange(at as int, (at + count) as int), name@) {
                Ok(s) => r is Ok && final(self).state() == s,
                Err(f) => r == Err::<(), SpirvFault>(f),
            },
    {
        reveal(spec_step);
        let ghost ins = words@.subrange(at as int, (at + count) as int);
        let ghost st = self.state();
        let first = words[at];
        assert(ins[0] == first);
        let op = first & 0xffff;
        if op == 10 || (25 <= op && op <= 27) || (48 <= op && op <= 52) || op == 331 {
            return Err(SpirvFault::UnsupportedFeature);
        }
        if op == 14 {
            if !(count == 3 && first == 0x0003_000e && words[at + 1] == 0 && words[at + 2] == 1) || self.model {
                return Err(SpirvFault::MemoryModel);
            }
            assert(ins[1] == 0 && ins[2] == 1);
            self.model = true;
            assert(self.state() =~= ScanState { model: true, ..st });
            return Ok(());
        }
        if op == 15 {
            if count < 4 || words[at + 1] != 5 || self.entry.is_some() {
                return Err(SpirvFault::EntryPoint);
            }
            assert(ins[1] == 5);
            assert(ins.subrange(3, count as int) =~= words@.subrange(at + 3, (at + count) as int));
            let fault = entry_name_fault(words, at + 3, at + count, name);
            match fault {
                Some(f) => {
                    return Err(f);
                },
                None => {},
            }
            let id = words[at + 2];
            assert(ins[2] == id);
            self.entry = Some(id);
            assert(self.state() =~= ScanState { entry: Some(id), ..st });
            return Ok(());
        }
        if op == 16 {
            if count != 6 || words[at + 2] != 17 || self.local.is_some() {
                return Err(SpirvFault::LocalSize);
            }
            let v = (words[at + 1], words[at + 3], words[at + 4], words[at + 5]);
            assert(ins[1] == v.0 && ins[2] == 17 && ins[3] == v.1 && ins[4] == v.2 && ins[5] == v.3);
            self.local = Some(v);
            assert(self.state() =~= ScanState { local: Some(v), ..st });
            return Ok(());
        }
        if op == 17 {
            if count != 2 || words[at + 1] != 1 || self.capability {
                return Err(SpirvFault::Capability);
            }
            assert(ins[1] == 1);
            self.capability = true;
            assert(self.state() =~= ScanState { capability: true, ..st });
            return Ok(());
        }
        if op == 21 || op == 22 {
            if count < 3 || words[at + 2] != 32 {
                return Err(SpirvFault::NumericWidth);
            }
            assert(ins[2] == 32);
            return Ok(());
        }
        if op == 30 && count >= 2 {
            let id = words[at + 1];
            assert(ins[1] == id);
            self.structures.insert(id);
            assert(self.state() =~= ScanState { structures: st.structures.insert(id), ..st });
            return Ok(());
        }
        if op == 32 && count == 4 {
            let id = words[at + 1];
            let v = (words[at + 2], words[at + 3]);
            assert(ins[1] == id && ins[2] == v.0 && ins[3] == v.1);
            self.pointers.insert(id, v);
            assert(self.state() =~= ScanState { pointers: st.pointers.insert(id, v), ..st });
            return Ok(());
        }
        if op == 43 && count == 4 {
            let id = words[at + 2];
            let v = words[at + 3];
            assert(ins[2] == id && ins[3] == v);
            self.constants.insert(id, v);
            assert(self.state() =~= ScanState { constants: st.constants.insert(id, v), ..st });
            return Ok(());
        }
        if op == 44 && count == 6 {
            let id = words[at + 2];
            let v = (words[at + 3], words[at + 4], words[at + 5]);
            assert(ins[2] == id && ins[3] == v.0 && ins[4] == v.1 && ins[5] == v.2);
            self.composites.insert(id, v);
            assert(self.state() =~= ScanState { composites: st.composites.insert(id, v), ..st });
            return Ok(());
        }
        if op == 59 {
            if count < 4 {
                return Err(SpirvFault::TruncatedVariable);
            }
            let class = words[at + 3];
            assert(ins[3] == class);
            if class == 12 {
                let v = (words[at + 1], words[at + 2]);
                assert(ins[1] == v.0 && ins[2] == v.1);
                self.variables.push(v);
                assert(self.state() =~= ScanState { variables: st.variables.push(v), ..st });
                return Ok(());
            }
            if class == 1 || class == 6 || class == 7 {
                return Ok(());
            }
            return Err(SpirvFault::StorageClass);
        }
        if op == 71 {
            return self.decorate(words, at, count);
        }
        if 73 <= op && op <= 75 {
            return Err(SpirvFault::DecorationGroups);
        }
        Ok(())
    }
}

/// Compares the nul-terminated name held in `words[start..end]` with `name`.
fn entry_name_fault(words: &Vec<u32>, start: usize, end: usize, name: &[u8]) -> (r: Option<SpirvFault>)
    requires
        start <= end <= words@.len(),
    ensures
        r == spec_name_fault(words@.subrange(start as int, end as int), name@),
{
    let mut s: Vec<u8> = Vec::new();
    let mut j: usize = start;
    while j < end
        invariant
            start <= j <= end <= words@.len(),
            s@ == spec_word_bytes(words@.subrange(start as int, j as int)),
        decreases end - j,
    {
        let w = words[j];
        s.push((w % 256) as u8);
        s.push(((w / 256) % 256) as u8);
        s.push(((w / 65536) % 256) as u8);
        s.push((w / 16777216) as u8);
        proof {
            let next = words@.subrange(start as int, j + 1);
            assert(next.drop_last() =~= words@.subrange(start as int, j as int));
            assert(next.last() == w);
            assert(s@ =~= spec_word_bytes(words@.subrange(start as int, j as int)) + spec_le_bytes(w));
        }
        j = j + 1;
    }
    let ghost bytes = s@;
    assert(bytes == spec_word_bytes(words@.subrange(start as int, end as int)));
    let mut k: usize = 0;
    while k < s.len() && s[k] != 0
        invariant
            k <= s@.len(),
            s@ == bytes,
            forall|i: int| 0 <= i < k ==> bytes[i] != 0,
        decreases s@.len() - k,
    {
        k = k + 1;
    }
    if k == s.len() {
        assert(!exists|i: int| spec_first_nul(bytes, i)) by {
            if exists|i: int| spec_first_nul(bytes, i) {
                let i = choose|i: int| spec_first_nul(bytes, i);
                assert(bytes[i] == 0);
            }
        }
        return Some(SpirvFault::UnterminatedName);
    }
    assert(spec_first_nul(bytes, k as int));
    proof {
        let e = choose|i: int| spec_first_nul(bytes, i);
        assert(spec_first_nul(bytes, e));
        if e < k {
            assert(bytes[e] != 0);
        }
        if e > k {
            assert(bytes[k as int] != 0);
        }
        assert(e == k);
    }
    if k != name.len() {
        assert(bytes.subrange(0, k as int).len() != name@.len());
        return Some(SpirvFault::EntryMismatch);
    }
    let mut i: usize = 0;
    while i < k
        invariant
            i <= k,
            k == name@.len(),
            k < s@.len(),
            s@ == bytes,
            forall|m: int| 0 <= m < i ==> bytes[m] == name@[m],
            (choose|x: int| spec_first_nul(bytes, x)) == k,
            spec_first_nul(bytes, k as int),
            bytes == spec_word_bytes(words@.subrange(start as int, end as int)),
        decreases k - i,
    {
        if s[i] != name[i] {
            assert(bytes.subrange(0, k as int)[i as int] != name@[i as int]);
            return Some(SpirvFault::EntryMismatch);
        }
        i = i + 1;
    }
    assert(bytes.subrange(0, k as int) =~= name@);
    None
}

impl Reflection {
    /// The LocalSize, builtin and storage-binding checks that close a scan.
    fn finish(&self, words: Vec<u32>) -> (r: Result<ShaderProfile, SpirvFault>)
        ensures
            match spec_finish(self.state(), words@) {
                Ok((w, l, found)) => r matches Ok(p) && p.words@ == w && p.local_size@ == l
                    && p.bindings@ == found.to_set(),
                Err(f) => r == Err::<ShaderProfile, SpirvFault>(f),
            },
    {
        let ghost st = self.state();
        let (id, x, y, z) = match self.local {
            None => {
                return Err(SpirvFault::MissingLocalSize);
            },
            Some(v) => v,
        };
        let entry_ok = match self.entry {
            Some(e) => e == id,
            None => false,
        };
        if !self.model || !self.capability || !entry_ok || x == 0 || y == 0 || z == 0 {
            return Err(SpirvFault::Incomplete);
        }
        match self.builtin {
            None => {},
            Some(b) => {
                let ids = match self.composites.get(&b) {
                    None => {
                        return Err(SpirvFault::BuiltinNotConstant);
                    },
                    Some(ids) => *ids,
                };
                let c0 = match self.constants.get(&ids.0) {
                    Some(v) => *v == x,
                    None => false,
                };
                let c1 = match self.constants.get(&ids.1) {
                    Some(v) => *v == y,
                    None => false,
                };
                let c2 = match self.constants.get(&ids.2) {
                    Some(v) => *v == z,
                    None => false,
                };
                if !(c0 && c1 && c2) {
                    return Err(SpirvFault::BuiltinMismatch);
                }
            },
        }
        assert(spec_builtin_fault(st, x, y, z) is None);
        let ghost mut found: Seq<u32> = Seq::empty();
        let mut set: BTreeSet<u32> = BTreeSet::new();
        let mut i: usize = 0;
        while i < self.variables.len()
            invariant
                i <= self.variables@.len(),
                st == self.state(),
                spec_collect(st, 0, Seq::empty()) == spec_collect(st, i as int, found),
                set@ == found.to_set(),
                found.no_duplicates(),
                self.local == Some((id, x, y, z)),
                self.model && self.capability && self.entry == Some(id),
                x != 0 && y != 0 && z != 0,
                spec_builtin_fault(st, x, y, z) is None,
            decreases self.variables@.len() - i,
        {
            let (ptr, var) = self.variables[i];
            let target = match self.pointers.get(&ptr) {
                None => {
                    return Err(SpirvFault::MissingPointer);
                },
                Some(t) => *t,
            };
            if target.0 != 12 || !self.structures.contains(&target.1) || !self.block_types.contains(
                &target.1,
            ) {
                return Err(SpirvFault::NotBlock);
            }
            let binding = match self.bindings.get(&var) {
                None => {
                    return Err(SpirvFault::MissingBinding);
                },
                Some(v) => *v,
            };
            let set_zero = match self.sets.get(&var) {
                Some(v) => *v == 0,
                None => false,
            };
            if !set_zero {
                return Err(SpirvFault::SetZero);
            }
            let fresh = set.insert(binding);
            if !fresh {
                assert(found.contains(binding));
                return Err(SpirvFault::SetZero);
            }
            proof {
                assert(!found.contains(binding));
                found.lemma_push_to_set_commute(binding);
                found = found.push(binding);
            }
            i = i + 1;
        }
        proof {
            found.unique_seq_to_set();
        }
        let n = set.len();
        if n == 0 || n != self.bindings.len() || n != self.sets.len() {
            return Err(SpirvFault::Unreflected);
        }
        let local_size = [x, y, z];
        assert(local_size@ =~= seq![x, y, z]);
        Ok(ShaderProfile { words, local_size, bindings: set })
    }
}

/// Reflects the compute profile of SPIR-V module `bytes` for the entry point
/// `requested_entry`, or names the first rule that the module breaks.
pub fn inspect_module(bytes: &[u8], requested_entry: &str) -> (r: Result<ShaderProfile, SpirvFault>)
    ensures
        match spec_inspect(bytes@, vstd::utf8::encode_utf8(requested_entry@)) {
            Ok((w, l, found)) => r matches Ok(p) && p.words@ == w && p.local_size@ == l
                && p.bindings@ == found.to_set(),
            Err(f) => r == Err::<ShaderProfile, SpirvFault>(f),
        },
{
    let name = requested_entry.as_bytes();
    let ghost e = name@;
    if bytes.len() < MIN_MODULE_BYTES || bytes.len() > MAX_MODULE_BYTES || bytes.len() % 4 != 0
        || name.len() == 0 || name.len() > MAX_ENTRY_NAME_BYTES || !name_bytes_ok(name) {
        return Err(SpirvFault::Bounds);
    }
    let words = decode_words(bytes);
    if !(words[0] == SPIRV_MAGIC && (words[1] == 0x0001_0000 || words[1] == 0x0001_0100
        || words[1] == 0x0001_0200 || words[1] == 0x0001_0300) && words[3] != 0 && words[3]
        <= MAX_ID_BOUND && words[4] == 0) {
        return Err(SpirvFault::Header);
    }
    let mut st = Reflection::new();
    let mut at: usize = 5;
    while at < words.len()
        invariant
            5 <= at <= words@.len(),
            words@ == spec_words(bytes@),
            e == vstd::utf8::encode_utf8(requested_entry@),
            name@ == e,
            spec_bounds_ok(bytes@, e),
            spec_header_ok(words@),
            spec_scan(words@, e, 5, spec_initial()) == spec_scan(words@, e, at as int, st.state()),
        decreases words@.len() - at,
    {
        let count = (words[at] >> 16) as usize;
        if count == 0 || count > words.len() - at {
            return Err(SpirvFault::Truncated);
        }
        let ghost before = st.state();
        assert(count as int == (words@[at as int] >> 16) as int);
        assert(spec_scan(words@, e, at as int, before) == match spec_step(
            before,
            words@.subrange(at as int, at + count),
            e,
        ) {
            Err(f) => Err(f),
            Ok(next) => spec_scan(words@, e, at + count, next),
        });
        match st.step(&words, at, count, name) {
            Err(f) => {
                return Err(f);
            },
            Ok(()) => {},
        }
        at = at + count;
    }
    st.finish(words)
}

/// [`inspect_module`], with the fault reported as [`ComputeError::Unsupported`]
/// carrying the fault's message.
pub fn inspect_spirv(bytes: &[u8], requested_entry: &str) -> (r: Result<ShaderProfile, ComputeError>)
    ensures
        match spec_inspect(bytes@, vstd::utf8::encode_utf8(requested_entry@)) {
            Ok((w, l, found)) => r matches Ok(p) && p.words@ == w && p.local_size@ == l
                && p.bindings@ == found.to_set(),
            Err(f) => r matches Err(ComputeError::Unsupported(m)) && m@ == f.spec_message(),
        },
{
    match inspect_module(bytes, requested_entry) {
        Ok(p) => Ok(p),
        Err(f) => Err(ComputeError::Unsupported(f.message())),
    }
}

fn name_bytes_ok(e: &[u8]) -> (r: bool)
    ensures
        r == (forall|k: int| 0 <= k < e@.len() ==> spec_name_byte_ok(#[trigger] e@[k])),
{
    let mut i: usize = 0;
    while i < e.len()
        invariant
            i <= e@.len(),
            forall|k: int| 0 <= k < i ==> spec_name_byte_ok(#[trigger] e@[k]),
        decreases e@.len() - i,
    {
        let c = e[i];
        if !((48 <= c && c <= 57) || (65 <= c && c <= 90) || (97 <= c && c <= 122) || c == 95) {
            assert(!spec_name_byte_ok(e@[i as int]));
            return false;
        }
        i = i + 1;
    }
    true
}

fn decode_words(b: &[u8]) -> (w: Vec<u32>)
    requires
        b@.len() % 4 == 0,
    ensures
        w@ == spec_words(b@),
{
    let mut w: Vec<u32> = Vec::new();
    let mut p: usize = 0;
    while b.len() - p >= 4
        invariant
            p <= b@.len(),
            b@.len() % 4 == 0,
            p == 4 * w@.len(),
            forall|j: int| 0 <= j < w@.len() ==> #[trigger] w@[j] == spec_le_word(b@, j),
        decreases b@.len() - p,
    {
        let v: u32 = b[p] as u32 + (b[p + 1] as u32) * 256 + (b[p + 2] as u32) * 65536
            + (b[p + 3] as u32) * 16777216;
        let ghost n = w@.len() as int;
        w.push(v);
        assert(w@[n] == spec_le_word(b@, n));
        p = p + 4;
    }
    assert(p == b@.len()) by (nonlinear_arith)
        requires
            p <= b@.len(),
            p + 4 > b@.len(),
            b@.len() % 4 == 0,
            p % 4 == 0,
    ;
    assert(w@.len() == b@.len() / 4);
    assert(w@ =~= spec_words(b@));
    w
}

} // verus!
