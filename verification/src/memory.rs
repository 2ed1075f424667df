//! Memory-usage analysis over a decoded module: the memory operations found
//! in function bodies, and the layout, stack, heap and allocation-pattern
//! summaries derived from them.

use vstd::prelude::*;
use vstd::string::StringExecFns;

verus! {

/// One memory-access instruction found while scanning a function body.
#[derive(Debug, Clone, Copy, PartialEq, Eq, Structural)]
pub struct MemoryOperation {
    pub operation_type: MemoryOpType,
    pub offset: Option<u32>,
    pub size: Option<u32>,
    pub function_index: u32,
    pub instruction_offset: u32,
}

#[derive(Debug, Clone, Copy, PartialEq, Eq, Structural)]
pub enum MemoryOpType {
    Load { size_bytes: u32 },
    Store { size_bytes: u32 },
    MemorySize,
    MemoryGrow,
    MemoryCopy,
    MemoryFill,
}

/// A run of identical allocation behaviour seen across functions.
#[derive(Debug, Clone)]
pub struct AllocationPattern {
    pub pattern_type: AllocationType,
    pub frequency: u32,
    pub average_size: u32,
    pub functions_involved: Vec<u32>,
    pub risk_assessment: MemoryRisk,
}

#[derive(Debug, Clone, Copy, PartialEq, Eq, Structural)]
pub enum AllocationType {
    StaticAllocation,
    DynamicGrowth,
    BulkOperations,
    FrequentSmallAllocations,
    LargeAllocations,
}

#[derive(Debug, Clone)]
pub struct MemoryRisk {
    pub risk_level: crate::analysis::RiskLevel,
    pub description: String,
    pub mitigation_suggestions: Vec<String>,
}

#[derive(Debug, Clone)]
pub struct MemoryLayout {
    pub total_initial_size: u32,
    pub total_max_size: Option<u32>,
    pub data_segments: Vec<DataSegmentAnalysis>,
    pub stack_estimation: StackAnalysis,
    pub heap_estimation: HeapAnalysis,
}

#[derive(Debug, Clone, Copy, PartialEq, Eq, Structural)]
pub struct DataSegmentAnalysis {
    pub index: u32,
    pub size: u32,
    pub is_active: bool,
    pub estimated_usage: DataUsagePattern,
}

#[derive(Debug, Clone, Copy, PartialEq, Eq, Structural)]
pub enum DataUsagePattern {
    ConstantData,
    LookupTable,
    InitializedVariables,
    StringLiterals,
    Unknown,
}

#[derive(Debug, Clone)]
pub struct StackAnalysis {
    pub estimated_max_depth: u32,
    pub recursive_risk: bool,
    pub deep_call_chains: Vec<Vec<u32>>,
}

#[derive(Debug, Clone)]
pub struct HeapAnalysis {
    pub uses_dynamic_allocation: bool,
    pub allocation_functions: Vec<String>,
    pub estimated_heap_usage: u32,
}

#[derive(Debug, Clone, Copy, PartialEq, Eq, Structural)]
pub enum HotspotType {
    HighFrequencyAccess,
    LargeDataMovement,
    MemoryGrowth,
    PotentialLeaks,
}

#[derive(Debug, Clone)]
pub struct MemoryOptimization {
    pub optimization_type: OptimizationType,
    pub description: String,
    pub estimated_savings: Option<String>,
    pub implementation_difficulty: DifficultyLevel,
}

#[derive(Debug, Clone, Copy, PartialEq, Eq, Structural)]
pub enum OptimizationType {
    ReduceMemoryFootprint,
    OptimizeDataLayout,
    MinimizeAllocations,
    ImproveLocality,
    SetMemoryLimits,
}

#[derive(Debug, Clone, Copy, PartialEq, Eq, Structural)]
pub enum DifficultyLevel {
    Easy,
    Medium,
    Hard,
}

#[derive(Debug, Clone)]
pub struct PotentialOverflow {
    pub function_index: u32,
    pub operation_type: String,
    pub risk_level: crate::analysis::RiskLevel,
    pub description: String,
}

// ----------------------------------------------------------------------------
// The analyzer.

/// One linear-memory page, in bytes.
pub open spec fn spec_page_size() -> int {
    65536
}

/// The memory layout summary: sizes in bytes (64 KiB pages), clamped to 32
/// bits, plus one record per data segment.
pub open spec fn spec_memory_layout_sizes(m: crate::types::ModuleInfoView) -> (u32, Option<u32>) {
    match m.memory {
        Some(mem) => (
            crate::graph::spec_sat32(mem.initial * spec_page_size()),
            match mem.maximum {
                Some(x) => Some(crate::graph::spec_sat32(x * spec_page_size())),
                None => None::<u32>,
            },
        ),
        None => (0u32, None::<u32>),
    }
}

pub open spec fn spec_segment_analysis(d: crate::types::DataSegment) -> DataSegmentAnalysis {
    DataSegmentAnalysis {
        index: d.index,
        size: d.size,
        is_active: !d.is_passive,
        estimated_usage: DataUsagePattern::Unknown,
    }
}

/// Whether a function body grows the linear memory.
pub open spec fn spec_any_grow(t: Seq<(u32, Seq<MemoryOperation>)>) -> bool {
    exists|j: int, k: int|
        0 <= j < t.len() && 0 <= k < (#[trigger] t[j]).1.len() && (#[trigger] t[j].1[k]).operation_type
            is MemoryGrow
}

/// Imports whose names suggest allocator entry points, as `module::name`
/// labels.
pub open spec fn spec_alloc_labels(imports: Seq<crate::types::ImportView>) -> Seq<Seq<char>>
    decreases imports.len(),
{
    if imports.len() == 0 {
        Seq::empty()
    } else if crate::strings::spec_str_contains(imports[0].name, "alloc"@)
        || crate::strings::spec_str_contains(imports[0].name, "malloc"@)
        || crate::strings::spec_str_contains(imports[0].name, "free"@) {
        seq![imports[0].module + "::"@ + imports[0].name] + spec_alloc_labels(
            imports.drop_first(),
        )
    } else {
        spec_alloc_labels(imports.drop_first())
    }
}

/// Scans one module and its raw bytes for memory behaviour.
pub struct MemoryAnalyzer<'a> {
    pub module_info: &'a crate::types::ModuleInfo,
    pub wasm_bytes: &'a [u8],
}

impl<'a> MemoryAnalyzer<'a> {
    pub fn new(module_info: &'a crate::types::ModuleInfo, wasm_bytes: &'a [u8]) -> (r:
        MemoryAnalyzer<'a>)
        ensures
            r.module_info == module_info,
            r.wasm_bytes@ == wasm_bytes@,
    {
        MemoryAnalyzer { module_info, wasm_bytes }
    }

    /// The memory operations of every function body, from a fresh decode of
    /// the buffer; exactly the table the decoder's specification names.
    pub fn extract_memory_operations(&self) -> (r: Result<
        Vec<(u32, Vec<MemoryOperation>)>,
        crate::types::DecodeError,
    >)
        ensures
            match r {
                Ok(t) => crate::format::spec_decode_mem_table(self.wasm_bytes@) == Ok::<
                    Seq<(u32, Seq<MemoryOperation>)>,
                    crate::types::DecodeError,
                >(crate::parser::spec_table_view(t@)),
                Err(e) => crate::format::spec_decode_mem_table(self.wasm_bytes@) == Err::<
                    Seq<(u32, Seq<MemoryOperation>)>,
                    crate::types::DecodeError,
                >(e),
            },
    {
        match crate::parser::decode_with_memory_ops(self.wasm_bytes) {
            Ok((_m, t)) => Ok(t),
            Err(e) => Err(e),
        }
    }

    /// The stack estimate: the largest declared-locals footprint of any one
    /// function; recursion analysis is out of scope here.
    pub fn analyze_stack_usage(&self) -> (r: StackAnalysis)
        ensures
            r.estimated_max_depth == crate::graph::spec_sat32(
                crate::analyzer::spec_stack_max(self.module_info@.functions),
            ),
            !r.recursive_risk,
            r.deep_call_chains@.len() == 0,
    {
        let depth = crate::analyzer::stack_max_of(self.module_info);
        StackAnalysis {
            estimated_max_depth: depth,
            recursive_risk: false,
            deep_call_chains: Vec::new(),
        }
    }

    /// The heap estimate: allocator imports, whether anything grows memory,
    /// and half the initial memory as a rough ceiling when something does.
    #[verifier::loop_isolation(false)]
    #[verifier::rlimit(100)]
    pub fn analyze_heap_usage(&self, memory_operations: &Vec<(u32, Vec<MemoryOperation>)>) -> (r:
        HeapAnalysis)
        ensures
            crate::analysis::strings_seq_view(r.allocation_functions@) == spec_alloc_labels(
                self.module_info@.imports,
            ),
            r.uses_dynamic_allocation == (spec_alloc_labels(self.module_info@.imports).len() > 0
                || spec_any_grow(crate::parser::spec_table_view(memory_operations@))),
            r.estimated_heap_usage == (if (spec_alloc_labels(self.module_info@.imports).len() > 0
                || spec_any_grow(crate::parser::spec_table_view(memory_operations@))) {
                match self.module_info@.memory {
                    Some(mem) => crate::graph::spec_sat32(mem.initial * spec_page_size() / 2),
                    None => 0u32,
                }
            } else {
                0u32
            }),
    {
        let ghost ivs = self.module_info@.imports;
        proof {
            assert(ivs.skip(0) =~= ivs);
        }
        let imports = &self.module_info.imports;
        let mut labels: Vec<String> = Vec::new();
        let mut j: usize = 0;
        while j < imports.len()
            invariant
                j <= imports.len(),
                ivs == self.module_info@.imports,
                spec_alloc_labels(ivs) =~= crate::analysis::strings_seq_view(labels@)
                    + spec_alloc_labels(ivs.skip(j as int)),
            decreases imports.len() - j,
        {
            proof {
                assert(ivs.skip(j as int)[0] == ivs[j as int]);
                assert(ivs.skip(j as int).drop_first() =~= ivs.skip(j as int + 1));
            }
            let i = &imports[j];
            let hit = crate::strings::str_contains(i.name.as_str(), "alloc")
                || crate::strings::str_contains(i.name.as_str(), "malloc")
                || crate::strings::str_contains(i.name.as_str(), "free");
            if hit {
                let ghost before = crate::analysis::strings_seq_view(labels@);
                let label = i.module.clone().concat("::").concat(i.name.as_str());
                let ghost g_label = label@;
                labels.push(label);
                proof {
                    assert(crate::analysis::strings_seq_view(labels@) =~= before + seq![g_label]);
                    assert(before + (seq![g_label] + spec_alloc_labels(ivs.skip(j as int + 1)))
                        =~= crate::analysis::strings_seq_view(labels@) + spec_alloc_labels(
                        ivs.skip(j as int + 1),
                    ));
                }
            }
            j = j + 1;
        }
        proof {
            assert(spec_alloc_labels(ivs.skip(imports@.len() as int)) =~= Seq::<Seq<char>>::empty());
            assert(crate::analysis::strings_seq_view(labels@) =~= spec_alloc_labels(ivs));
        }
        let ghost tv = crate::parser::spec_table_view(memory_operations@);
        let mut grows = false;
        let mut t: usize = 0;
        while t < memory_operations.len()
            invariant
                t <= memory_operations.len(),
                tv == crate::parser::spec_table_view(memory_operations@),
                grows <==> exists|a: int, b: int|
                    0 <= a < t && 0 <= b < (#[trigger] tv[a]).1.len() && (
                    #[trigger] tv[a].1[b]).operation_type is MemoryGrow,
            decreases memory_operations.len() - t,
        {
            let ops = &memory_operations[t].1;
            let mut k: usize = 0;
            while k < ops.len()
                invariant
                    t < memory_operations.len(),
                    k <= ops.len(),
                    tv == crate::parser::spec_table_view(memory_operations@),
                    ops@ == tv[t as int].1,
                    grows <==> (exists|a: int, b: int|
                        0 <= a < t && 0 <= b < (#[trigger] tv[a]).1.len() && (
                        #[trigger] tv[a].1[b]).operation_type is MemoryGrow) || (exists|b: int|
                        0 <= b < k && (#[trigger] tv[t as int].1[b]).operation_type
                            is MemoryGrow),
                decreases ops.len() - k,
            {
                if matches!(ops[k].operation_type, MemoryOpType::MemoryGrow) {
                    proof {
                        assert(tv[t as int].1[k as int].operation_type is MemoryGrow);
                    }
                    grows = true;
                }
                k = k + 1;
            }
            t = t + 1;
        }
        proof {
            if grows {
                assert(spec_any_grow(tv));
            }
            if spec_any_grow(tv) {
                let (a, b) = choose|a: int, b: int|
                    0 <= a < tv.len() && 0 <= b < (#[trigger] tv[a]).1.len() && (
                    #[trigger] tv[a].1[b]).operation_type is MemoryGrow;
                assert(grows);
            }
        }
        let uses_dynamic_allocation = labels.len() > 0 || grows;
        let estimated_heap_usage: u32 = if uses_dynamic_allocation {
            match &self.module_info.memory {
                Some(mem) => crate::analyzer::sat32_of(
                    (mem.initial as u128) * 65536u128 / 2u128,
                ),
                None => 0,
            }
        } else {
            0
        };
        HeapAnalysis {
            uses_dynamic_allocation,
            allocation_functions: labels,
            estimated_heap_usage,
        }
    }

    /// The memory layout: total sizes, one record per data segment, and the
    /// stack and heap estimates.
    #[verifier::loop_isolation(false)]
    pub fn analyze_memory_layout(&self, memory_operations: &Vec<(u32, Vec<MemoryOperation>)>) -> (r:
        MemoryLayout)
        ensures
            (r.total_initial_size, r.total_max_size) == spec_memory_layout_sizes(
                self.module_info@,
            ),
            r.data_segments@.len() == self.module_info@.data_segments.len(),
            forall|j: int|
                0 <= j < r.data_segments@.len() ==> #[trigger] r.data_segments@[j]
                    == spec_segment_analysis(self.module_info@.data_segments[j]),
    {
        let (total_initial_size, total_max_size) = match &self.module_info.memory {
            Some(mem) => (
                crate::analyzer::sat32_of((mem.initial as u128) * 65536u128),
                match mem.maximum {
                    Some(x) => Some(crate::analyzer::sat32_of((x as u128) * 65536u128)),
                    None => None,
                },
            ),
            None => (0u32, None),
        };
        let mut data_segments: Vec<DataSegmentAnalysis> = Vec::new();
        let mut d: usize = 0;
        while d < self.module_info.data_segments.len()
            invariant
                d <= self.module_info.data_segments.len(),
                data_segments@.len() == d,
                forall|j: int|
                    0 <= j < d ==> #[trigger] data_segments@[j] == spec_segment_analysis(
                        self.module_info@.data_segments[j],
                    ),
            decreases self.module_info.data_segments.len() - d,
        {
            let ds = &self.module_info.data_segments[d];
            data_segments.push(
                DataSegmentAnalysis {
                    index: ds.index,
                    size: ds.size,
                    is_active: !ds.is_passive,
                    estimated_usage: DataUsagePattern::Unknown,
                },
            );
            d = d + 1;
        }
        MemoryLayout {
            total_initial_size,
            total_max_size,
            data_segments,
            stack_estimation: self.analyze_stack_usage(),
            heap_estimation: self.analyze_heap_usage(memory_operations),
        }
    }
}

// ----------------------------------------------------------------------------
// Allocation patterns.

#[verifier::ext_equal]
pub ghost struct MemoryRiskView {
    pub risk_level: crate::analysis::RiskLevel,
    pub description: Seq<char>,
    pub mitigation_suggestions: Seq<Seq<char>>,
}

#[verifier::ext_equal]
pub ghost struct AllocationPatternView {
    pub pattern_type: AllocationType,
    pub frequency: u32,
    pub average_size: u32,
    pub functions_involved: Seq<u32>,
    pub risk_assessment: MemoryRiskView,
}

impl View for MemoryRisk {
    type V = MemoryRiskView;

    open spec fn view(&self) -> MemoryRiskView {
        MemoryRiskView {
            risk_level: self.risk_level,
            description: self.description@,
            mitigation_suggestions: crate::analysis::strings_seq_view(
                self.mitigation_suggestions@,
            ),
        }
    }
}

impl View for AllocationPattern {
    type V = AllocationPatternView;

    open spec fn view(&self) -> AllocationPatternView {
        AllocationPatternView {
            pattern_type: self.pattern_type,
            frequency: self.frequency,
            average_size: self.average_size,
            functions_involved: self.functions_involved@,
            risk_assessment: self.risk_assessment@,
        }
    }
}

pub open spec fn patterns_view(v: Seq<AllocationPattern>) -> Seq<AllocationPatternView> {
    v.map_values(|x: AllocationPattern| x@)
}

/// The per-function behaviours the pattern scan classifies.
#[derive(Debug, Clone, Copy, PartialEq, Eq, Structural)]
pub enum OpBehaviour {
    GrowsMemory,
    BulkOperations,
    FrequentSmallAccesses,
}

pub open spec fn spec_small_access_count(ops: Seq<MemoryOperation>) -> int
    decreases ops.len(),
{
    if ops.len() == 0 {
        0
    } else {
        (match ops[0].operation_type {
            MemoryOpType::Load { size_bytes } => if size_bytes <= 8 {
                1int
            } else {
                0int
            },
            MemoryOpType::Store { size_bytes } => if size_bytes <= 8 {
                1int
            } else {
                0int
            },
            _ => 0int,
        }) + spec_small_access_count(ops.drop_first())
    }
}

pub open spec fn spec_entry_shows(ops: Seq<MemoryOperation>, b: OpBehaviour) -> bool {
    match b {
        OpBehaviour::GrowsMemory => exists|k: int|
            0 <= k < ops.len() && (#[trigger] ops[k]).operation_type is MemoryGrow,
        OpBehaviour::BulkOperations => exists|k: int|
            0 <= k < ops.len() && ((#[trigger] ops[k]).operation_type is MemoryCopy
                || ops[k].operation_type is MemoryFill),
        OpBehaviour::FrequentSmallAccesses => spec_small_access_count(ops) > 10,
    }
}

/// The function indices whose bodies show one behaviour, in table order.
pub open spec fn spec_funcs_with(t: Seq<(u32, Seq<MemoryOperation>)>, b: OpBehaviour) -> Seq<u32>
    decreases t.len(),
{
    if t.len() == 0 {
        Seq::empty()
    } else if spec_entry_shows(t[0].1, b) {
        seq![t[0].0] + spec_funcs_with(t.drop_first(), b)
    } else {
        spec_funcs_with(t.drop_first(), b)
    }
}

pub open spec fn spec_growth_pattern(funcs: Seq<u32>) -> AllocationPatternView {
    AllocationPatternView {
        pattern_type: AllocationType::DynamicGrowth,
        frequency: crate::graph::spec_sat32(funcs.len() as int),
        average_size: 0,
        functions_involved: funcs,
        risk_assessment: MemoryRiskView {
            risk_level: crate::analysis::RiskLevel::Medium,
            description: "Module uses memory.grow for dynamic resizing."@,
            mitigation_suggestions: seq![
                "Set maximum memory limits if possible."@,
                "Profile memory usage."@,
            ],
        },
    }
}

pub open spec fn spec_bulk_pattern(funcs: Seq<u32>) -> AllocationPatternView {
    AllocationPatternView {
        pattern_type: AllocationType::BulkOperations,
        frequency: crate::graph::spec_sat32(funcs.len() as int),
        average_size: 0,
        functions_involved: funcs,
        risk_assessment: MemoryRiskView {
            risk_level: crate::analysis::RiskLevel::Low,
            description: "Module uses bulk memory operations (copy/fill)."@,
            mitigation_suggestions: seq!["Ensure operations are on valid memory regions."@],
        },
    }
}

pub open spec fn spec_frequent_pattern(funcs: Seq<u32>) -> AllocationPatternView {
    AllocationPatternView {
        pattern_type: AllocationType::FrequentSmallAllocations,
        frequency: crate::graph::spec_sat32(funcs.len() as int),
        average_size: 4,
        functions_involved: funcs,
        risk_assessment: MemoryRiskView {
            risk_level: crate::analysis::RiskLevel::Low,
            description: "Module performs frequent small memory accesses."@,
            mitigation_suggestions: seq![
                "Consider data layout for cache efficiency."@,
                "Batch operations if applicable."@,
            ],
        },
    }
}

pub open spec fn spec_static_pattern(m: crate::types::ModuleInfoView) -> AllocationPatternView {
    AllocationPatternView {
        pattern_type: AllocationType::StaticAllocation,
        frequency: crate::graph::spec_sat32(m.data_segments.len() as int),
        average_size: crate::graph::spec_sat32(
            crate::security::spec_sum_data_sizes(m.data_segments) / m.data_segments.len() as int,
        ),
        functions_involved: Seq::empty(),
        risk_assessment: MemoryRiskView {
            risk_level: crate::analysis::RiskLevel::Low,
            description: "Module uses static data segments for initial memory content."@,
            mitigation_suggestions: Seq::empty(),
        },
    }
}

/// All allocation patterns, in the fixed scan order: dynamic growth, bulk
/// operations, frequent small accesses, then static data.
pub open spec fn spec_allocation_patterns(
    m: crate::types::ModuleInfoView,
    t: Seq<(u32, Seq<MemoryOperation>)>,
) -> Seq<AllocationPatternView> {
    (if spec_funcs_with(t, OpBehaviour::GrowsMemory).len() > 0 {
        seq![spec_growth_pattern(spec_funcs_with(t, OpBehaviour::GrowsMemory))]
    } else {
        Seq::empty()
    }) + (if spec_funcs_with(t, OpBehaviour::BulkOperations).len() > 0 {
        seq![spec_bulk_pattern(spec_funcs_with(t, OpBehaviour::BulkOperations))]
    } else {
        Seq::empty()
    }) + (if spec_funcs_with(t, OpBehaviour::FrequentSmallAccesses).len() > 0 {
        seq![spec_frequent_pattern(spec_funcs_with(t, OpBehaviour::FrequentSmallAccesses))]
    } else {
        Seq::empty()
    }) + (if m.data_segments.len() > 0 {
        seq![spec_static_pattern(m)]
    } else {
        Seq::empty()
    })
}

fn entry_shows(ops: &Vec<MemoryOperation>, b: OpBehaviour) -> (r: bool)
    ensures
        r == spec_entry_shows(ops@, b),
{
    match b {
        OpBehaviour::GrowsMemory | OpBehaviour::BulkOperations => {
            let grow = matches!(b, OpBehaviour::GrowsMemory);
            let mut k: usize = 0;
            while k < ops.len()
                invariant
                    k <= ops.len(),
                    grow == (b is GrowsMemory),
                    b is GrowsMemory || b is BulkOperations,
                    grow ==> forall|w: int|
                        0 <= w < k ==> !((#[trigger] ops@[w]).operation_type is MemoryGrow),
                    !grow ==> forall|w: int|
                        0 <= w < k ==> !((#[trigger] ops@[w]).operation_type is MemoryCopy
                            || ops@[w].operation_type is MemoryFill),
                decreases ops.len() - k,
            {
                let hit = if grow {
                    matches!(ops[k].operation_type, MemoryOpType::MemoryGrow)
                } else {
                    matches!(
                        ops[k].operation_type,
                        MemoryOpType::MemoryCopy | MemoryOpType::MemoryFill
                    )
                };
                if hit {
                    return true;
                }
                k = k + 1;
            }
            false
        },
        OpBehaviour::FrequentSmallAccesses => {
            let ghost ovs = ops@;
            proof {
                assert(ovs.skip(0) =~= ovs);
            }
            let mut count: u64 = 0;
            let mut k: usize = 0;
            while k < ops.len()
                invariant
                    k <= ops.len(),
                    count <= k,
                    ovs == ops@,
                    spec_small_access_count(ovs) == count + spec_small_access_count(
                        ovs.skip(k as int),
                    ),
                decreases ops.len() - k,
            {
                proof {
                    assert(ovs.skip(k as int)[0] == ovs[k as int]);
                    assert(ovs.skip(k as int).drop_first() =~= ovs.skip(k as int + 1));
                }
                let small = match ops[k].operation_type {
                    MemoryOpType::Load { size_bytes } => size_bytes <= 8,
                    MemoryOpType::Store { size_bytes } => size_bytes <= 8,
                    _ => false,
                };
                if small {
                    count = count + 1;
                }
                k = k + 1;
            }
            proof {
                assert(spec_small_access_count(ovs.skip(ops@.len() as int)) == 0);
            }
            count > 10
        },
    }
}

fn funcs_with(t: &Vec<(u32, Vec<MemoryOperation>)>, b: OpBehaviour) -> (r: Vec<u32>)
    ensures
        r@ == spec_funcs_with(crate::parser::spec_table_view(t@), b),
{
    let ghost tv = crate::parser::spec_table_view(t@);
    proof {
        assert(tv.skip(0) =~= tv);
    }
    let mut out: Vec<u32> = Vec::new();
    let mut j: usize = 0;
    while j < t.len()
        invariant
            j <= t.len(),
            tv == crate::parser::spec_table_view(t@),
            spec_funcs_with(tv, b) =~= out@ + spec_funcs_with(tv.skip(j as int), b),
        decreases t.len() - j,
    {
        proof {
            assert(tv.skip(j as int)[0] == tv[j as int]);
            assert(tv.skip(j as int).drop_first() =~= tv.skip(j as int + 1));
        }
        if entry_shows(&t[j].1, b) {
            let ghost before = out@;
            out.push(t[j].0);
            proof {
                assert(out@ =~= before + seq![tv[j as int].0]);
                assert(before + (seq![tv[j as int].0] + spec_funcs_with(
                    tv.skip(j as int + 1),
                    b,
                )) =~= out@ + spec_funcs_with(tv.skip(j as int + 1), b));
            }
        }
        j = j + 1;
    }
    proof {
        assert(spec_funcs_with(tv.skip(t@.len() as int), b) =~= Seq::<u32>::empty());
        assert(out@ + Seq::<u32>::empty() =~= out@);
    }
    out
}

impl<'a> MemoryAnalyzer<'a> {
    /// The allocation-pattern scan over the memory-operation table: dynamic
    /// growth, bulk operations, frequent small accesses, and static data.
    #[verifier::rlimit(100)]
    pub fn analyze_allocation_patterns(
        &self,
        memory_operations: &Vec<(u32, Vec<MemoryOperation>)>,
    ) -> (r: Vec<AllocationPattern>)
        ensures
            patterns_view(r@) == spec_allocation_patterns(
                self.module_info@,
                crate::parser::spec_table_view(memory_operations@),
            ),
    {
        let ghost mv = self.module_info@;
        let ghost tv = crate::parser::spec_table_view(memory_operations@);
        let mut out: Vec<AllocationPattern> = Vec::new();
        let growth = funcs_with(memory_operations, OpBehaviour::GrowsMemory);
        if growth.len() > 0 {
            let ghost g_funcs = growth@;
            let frequency = crate::analyzer::sat32_of(growth.len() as u128);
            let p = AllocationPattern {
                pattern_type: AllocationType::DynamicGrowth,
                frequency,
                average_size: 0,
                functions_involved: growth,
                risk_assessment: MemoryRisk {
                    risk_level: crate::analysis::RiskLevel::Medium,
                    description: String::from_str(
                        "Module uses memory.grow for dynamic resizing.",
                    ),
                    mitigation_suggestions: vec![
                        String::from_str("Set maximum memory limits if possible."),
                        String::from_str("Profile memory usage."),
                    ],
                },
            };
            proof {
                assert(p@ =~= spec_growth_pattern(g_funcs));
            }
            out.push(p);
        }
        let ghost part1 = patterns_view(out@);
        let bulk = funcs_with(memory_operations, OpBehaviour::BulkOperations);
        if bulk.len() > 0 {
            let ghost g_funcs = bulk@;
            let frequency = crate::analyzer::sat32_of(bulk.len() as u128);
            let p = AllocationPattern {
                pattern_type: AllocationType::BulkOperations,
                frequency,
                average_size: 0,
                functions_involved: bulk,
                risk_assessment: MemoryRisk {
                    risk_level: crate::analysis::RiskLevel::Low,
                    description: String::from_str(
                        "Module uses bulk memory operations (copy/fill).",
                    ),
                    mitigation_suggestions: vec![
                        String::from_str("Ensure operations are on valid memory regions."),
                    ],
                },
            };
            proof {
                assert(p@ =~= spec_bulk_pattern(g_funcs));
            }
            out.push(p);
        }
        let ghost part2 = patterns_view(out@);
        let frequent = funcs_with(memory_operations, OpBehaviour::FrequentSmallAccesses);
        if frequent.len() > 0 {
            let ghost g_funcs = frequent@;
            let frequency = crate::analyzer::sat32_of(frequent.len() as u128);
            let p = AllocationPattern {
                pattern_type: AllocationType::FrequentSmallAllocations,
                frequency,
                average_size: 4,
                functions_involved: frequent,
                risk_assessment: MemoryRisk {
                    risk_level: crate::analysis::RiskLevel::Low,
                    description: String::from_str(
                        "Module performs frequent small memory accesses.",
                    ),
                    mitigation_suggestions: vec![
                        String::from_str("Consider data layout for cache efficiency."),
                        String::from_str("Batch operations if applicable."),
                    ],
                },
            };
            proof {
                assert(p@ =~= spec_frequent_pattern(g_funcs));
            }
            out.push(p);
        }
        let ghost part3 = patterns_view(out@);
        if self.module_info.data_segments.len() > 0 {
            let total = crate::analyzer::sum_data_sizes_of(self.module_info);
            let average_size = crate::analyzer::sat32_of(
                total / (self.module_info.data_segments.len() as u128),
            );
            let frequency = crate::analyzer::sat32_of(
                self.module_info.data_segments.len() as u128,
            );
            let p = AllocationPattern {
                pattern_type: AllocationType::StaticAllocation,
                frequency,
                average_size,
                functions_involved: Vec::new(),
                risk_assessment: MemoryRisk {
                    risk_level: crate::analysis::RiskLevel::Low,
                    description: String::from_str(
                        "Module uses static data segments for initial memory content.",
                    ),
                    mitigation_suggestions: Vec::new(),
                },
            };
            proof {
                assert(p@ =~= spec_static_pattern(mv));
            }
            out.push(p);
        }
        proof {
            assert(patterns_view(out@) =~= spec_allocation_patterns(mv, tv));
        }
        out
    }
}

#[verifier::ext_equal]
pub ghost struct MemoryOptimizationView {
    pub optimization_type: OptimizationType,
    pub description: Seq<char>,
    pub estimated_savings: Option<Seq<char>>,
    pub implementation_difficulty: DifficultyLevel,
}

impl View for MemoryOptimization {
    type V = MemoryOptimizationView;

    open spec fn view(&self) -> MemoryOptimizationView {
        MemoryOptimizationView {
            optimization_type: self.optimization_type,
            description: self.description@,
            estimated_savings: crate::types::view_of_opt_string(self.estimated_savings),
            implementation_difficulty: self.implementation_difficulty,
        }
    }
}

pub open spec fn optimizations_view(v: Seq<MemoryOptimization>) -> Seq<MemoryOptimizationView> {
    v.map_values(|x: MemoryOptimization| x@)
}

pub open spec fn spec_has_frequent_pattern(ps: Seq<AllocationPatternView>) -> bool {
    exists|j: int|
        0 <= j < ps.len() && (#[trigger] ps[j]).pattern_type is FrequentSmallAllocations
}

/// The memory-optimization notes, in the fixed scan order: a missing memory
/// ceiling, heavy static data, frequent small accesses.
pub open spec fn spec_memory_optimizations(
    m: crate::types::ModuleInfoView,
    ps: Seq<AllocationPatternView>,
) -> Seq<MemoryOptimizationView> {
    (if (match m.memory {
        Some(mem) => mem.maximum is None,
        None => true,
    }) {
        seq![
            MemoryOptimizationView {
                optimization_type: OptimizationType::SetMemoryLimits,
                description: "Module memory does not have a maximum limit defined."@,
                estimated_savings: Some(
                    "Improved resource predictability and DOS protection."@,
                ),
                implementation_difficulty: DifficultyLevel::Easy,
            },
        ]
    } else {
        Seq::empty()
    }) + (if crate::security::spec_sum_data_sizes(m.data_segments) > 102400 {
        seq![
            MemoryOptimizationView {
                optimization_type: OptimizationType::ReduceMemoryFootprint,
                description: "Large total size of data segments. Consider if all data is needed at startup."@,
                estimated_savings: Some(
                    "Potential size reduction by lazy loading or compressing data."@,
                ),
                implementation_difficulty: DifficultyLevel::Medium,
            },
        ]
    } else {
        Seq::empty()
    }) + (if spec_has_frequent_pattern(ps) {
        seq![
            MemoryOptimizationView {
                optimization_type: OptimizationType::MinimizeAllocations,
                description: "Detected patterns of frequent small memory accesses, potentially indicating inefficient small allocations if custom allocator is used."@,
                estimated_savings: Some(
                    "Performance improvement by using memory pooling or optimizing data structures."@,
                ),
                implementation_difficulty: DifficultyLevel::Hard,
            },
        ]
    } else {
        Seq::empty()
    })
}

impl<'a> MemoryAnalyzer<'a> {
    /// The optimization notes derived from the module and its allocation
    /// patterns.
    #[verifier::rlimit(100)]
    pub fn identify_optimizations(&self, patterns: &Vec<AllocationPattern>) -> (r: Vec<
        MemoryOptimization,
    >)
        ensures
            optimizations_view(r@) == spec_memory_optimizations(
                self.module_info@,
                patterns_view(patterns@),
            ),
    {
        let ghost mv = self.module_info@;
        let ghost pvs = patterns_view(patterns@);
        let mut out: Vec<MemoryOptimization> = Vec::new();
        let unbounded = match &self.module_info.memory {
            Some(mem) => mem.maximum.is_none(),
            None => true,
        };
        if unbounded {
            out.push(
                MemoryOptimization {
                    optimization_type: OptimizationType::SetMemoryLimits,
                    description: String::from_str(
                        "Module memory does not have a maximum limit defined.",
                    ),
                    estimated_savings: Some(
                        String::from_str(
                            "Improved resource predictability and DOS protection.",
                        ),
                    ),
                    implementation_difficulty: DifficultyLevel::Easy,
                },
            );
        }
        let total = crate::analyzer::sum_data_sizes_of(self.module_info);
        if total > 102400 {
            out.push(
                MemoryOptimization {
                    optimization_type: OptimizationType::ReduceMemoryFootprint,
                    description: String::from_str(
                        "Large total size of data segments. Consider if all data is needed at startup.",
                    ),
                    estimated_savings: Some(
                        String::from_str(
                            "Potential size reduction by lazy loading or compressing data.",
                        ),
                    ),
                    implementation_difficulty: DifficultyLevel::Medium,
                },
            );
        }
        let mut frequent = false;
        let mut j: usize = 0;
        while j < patterns.len()
            invariant
                j <= patterns.len(),
                pvs == patterns_view(patterns@),
                frequent <==> exists|w: int|
                    0 <= w < j && (#[trigger] pvs[w]).pattern_type is FrequentSmallAllocations,
            decreases patterns.len() - j,
        {
            if matches!(patterns[j].pattern_type, AllocationType::FrequentSmallAllocations) {
                proof {
                    assert(pvs[j as int].pattern_type is FrequentSmallAllocations);
                }
                frequent = true;
            }
            j = j + 1;
        }
        if frequent {
            out.push(
                MemoryOptimization {
                    optimization_type: OptimizationType::MinimizeAllocations,
                    description: String::from_str(
                        "Detected patterns of frequent small memory accesses, potentially indicating inefficient small allocations if custom allocator is used.",
                    ),
                    estimated_savings: Some(
                        String::from_str(
                            "Performance improvement by using memory pooling or optimizing data structures.",
                        ),
                    ),
                    implementation_difficulty: DifficultyLevel::Hard,
                },
            );
        }
        proof {
            assert(frequent == spec_has_frequent_pattern(pvs));
            assert(optimizations_view(out@) =~= spec_memory_optimizations(mv, pvs));
        }
        out
    }
}

} // verus!
