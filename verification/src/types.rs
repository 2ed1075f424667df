//! Data model of a decoded module and of the derived call graph.
//!
//! Each type holding a `String` or a `Vec` has a ghost twin (its `View`),
//! stated over `Seq`, so that contracts can speak of whole values.

use vstd::prelude::*;

verus! {

/// The error taxonomy of the decoder.  Every decode failure aborts the whole
/// decode; no partial representation is ever returned.
#[derive(Debug, Clone, Copy, PartialEq, Eq, Structural)]
pub enum DecodeError {
    /// The fixed 4-byte magic cookie is absent or wrong.
    BadMagic,
    /// The 4-byte version field does not hold the supported version.
    BadVersion,
    /// A section or record ends before its declared extent.
    Truncated,
    /// A length or count prefix is not a well-formed variable-length integer,
    /// or a declared size disagrees with the content it frames.
    BadCount,
    /// An instruction stream holds an opcode that cannot be decoded.
    BadInstruction,
    /// A constant-expression offset cannot be decoded.
    BadConstExpr,
    /// A record refers to an index beyond a declared count
    /// (a code entry without a matching function declaration).
    DanglingIndex,
    /// A record's content is malformed: an unknown kind or form byte, or a
    /// name that is not valid UTF-8.
    BadRecord,
}

/// The decoded module: format version, ordered records of every section the
/// decoder understands, and the flat list of direct-call facts
/// `(caller_global_index, callee_global_index)`.
#[derive(Debug, Clone)]
pub struct ModuleInfo {
    pub version: u32,
    pub imports: Vec<Import>,
    pub exports: Vec<Export>,
    pub functions: Vec<Function>,
    pub memory: Option<Memory>,
    pub tables: Vec<Table>,
    pub globals: Vec<Global>,
    pub data_segments: Vec<DataSegment>,
    pub element_segments: Vec<ElementSegment>,
    pub start_function: Option<u32>,
    pub custom_sections: Vec<CustomSection>,
    pub function_call_instructions: Vec<(u32, u32)>,
    pub type_signatures: Vec<String>,
}

#[derive(Debug, Clone)]
pub struct Import {
    pub module: String,
    pub name: String,
    pub kind: ImportKind,
    pub index: u32,
}

#[derive(Debug, Clone)]
pub enum ImportKind {
    Function { type_index: u32 },
    Table { table_type: TableType },
    Memory { memory_type: MemoryType },
    Global { global_type: GlobalType },
}

#[derive(Debug, Clone)]
pub struct Export {
    pub name: String,
    pub kind: ExportKind,
    pub index: u32,
}

#[derive(Debug, Clone, Copy, PartialEq, Eq, Structural)]
pub enum ExportKind {
    Function,
    Table,
    Memory,
    Global,
}

/// A defined (non-imported) function.  Its `index` is the global function
/// index: the count of function-kind imports plus its position in the
/// function section.
#[derive(Debug, Clone)]
pub struct Function {
    pub index: u32,
    pub type_index: u32,
    pub locals: Vec<LocalType>,
    pub body_size: u32,
    pub is_imported: bool,
    pub is_exported: bool,
    pub name: Option<String>,
}

#[derive(Debug, Clone, Copy, PartialEq, Eq, Structural)]
pub struct Memory {
    pub initial: u32,
    pub maximum: Option<u32>,
    pub shared: bool,
    pub is_imported: bool,
    pub is_exported: bool,
}

#[derive(Debug, Clone)]
pub struct Table {
    pub index: u32,
    pub table_type: TableType,
    pub is_imported: bool,
    pub is_exported: bool,
}

#[derive(Debug, Clone)]
pub struct TableType {
    pub element_type: String,
    pub initial: u32,
    pub maximum: Option<u32>,
}

#[derive(Debug, Clone, Copy, PartialEq, Eq, Structural)]
pub struct MemoryType {
    pub initial: u32,
    pub maximum: Option<u32>,
    pub shared: bool,
}

#[derive(Debug, Clone)]
pub struct Global {
    pub index: u32,
    pub global_type: GlobalType,
    pub init_value: Option<String>,
    pub is_imported: bool,
    pub is_exported: bool,
}

#[derive(Debug, Clone)]
pub struct GlobalType {
    pub value_type: String,
    pub mutable: bool,
}

#[derive(Debug, Clone)]
pub struct LocalType {
    pub count: u32,
    pub value_type: String,
}

/// `offset` is resolved only when the segment is active and its offset
/// expression is the single form "push one constant, then terminate"; any
/// other expression, and every passive segment, leaves it absent.
#[derive(Debug, Clone, Copy, PartialEq, Eq, Structural)]
pub struct DataSegment {
    pub index: u32,
    pub memory_index: u32,
    pub offset: Option<u32>,
    pub size: u32,
    pub is_passive: bool,
}

#[derive(Debug, Clone, Copy, PartialEq, Eq, Structural)]
pub struct ElementSegment {
    pub index: u32,
    pub table_index: Option<u32>,
    pub offset: Option<u32>,
    pub element_count: u32,
    pub is_passive: bool,
}

#[derive(Debug, Clone)]
pub struct CustomSection {
    pub name: String,
    pub size: u32,
}

/// The call graph derived from a finished [`ModuleInfo`]: one node per known
/// function index, one edge per distinct `(caller, callee)` pair.
#[derive(Debug, Clone)]
pub struct CallGraph {
    pub nodes: Vec<CallNode>,
    pub edges: Vec<CallEdge>,
    pub entry_points: Vec<u32>,
    pub unreachable_functions: Vec<u32>,
}

#[derive(Debug, Clone)]
pub struct CallNode {
    pub function_index: u32,
    pub name: Option<String>,
    pub is_imported: bool,
    pub is_exported: bool,
    pub call_count: u32,
}

/// `call_sites` counts the distinct static call instructions from `from` to
/// `to`, not a dynamic invocation count.
#[derive(Debug, Clone, Copy, PartialEq, Eq, Structural)]
pub struct CallEdge {
    pub from: u32,
    pub to: u32,
    pub call_sites: u32,
}

// ----------------------------------------------------------------------------
// Ghost twins.

#[verifier::ext_equal]
pub ghost struct ImportView {
    pub module: Seq<char>,
    pub name: Seq<char>,
    pub kind: ImportKindView,
    pub index: u32,
}

#[verifier::ext_equal]
pub ghost enum ImportKindView {
    Function { type_index: u32 },
    Table { table_type: TableTypeView },
    Memory { memory_type: MemoryType },
    Global { global_type: GlobalTypeView },
}

#[verifier::ext_equal]
pub ghost struct ExportView {
    pub name: Seq<char>,
    pub kind: ExportKind,
    pub index: u32,
}

#[verifier::ext_equal]
pub ghost struct FunctionView {
    pub index: u32,
    pub type_index: u32,
    pub locals: Seq<LocalTypeView>,
    pub body_size: u32,
    pub is_imported: bool,
    pub is_exported: bool,
    pub name: Option<Seq<char>>,
}

#[verifier::ext_equal]
pub ghost struct TableView {
    pub index: u32,
    pub table_type: TableTypeView,
    pub is_imported: bool,
    pub is_exported: bool,
}

#[verifier::ext_equal]
pub ghost struct TableTypeView {
    pub element_type: Seq<char>,
    pub initial: u32,
    pub maximum: Option<u32>,
}

#[verifier::ext_equal]
pub ghost struct GlobalView {
    pub index: u32,
    pub global_type: GlobalTypeView,
    pub init_value: Option<Seq<char>>,
    pub is_imported: bool,
    pub is_exported: bool,
}

#[verifier::ext_equal]
pub ghost struct GlobalTypeView {
    pub value_type: Seq<char>,
    pub mutable: bool,
}

#[verifier::ext_equal]
pub ghost struct LocalTypeView {
    pub count: u32,
    pub value_type: Seq<char>,
}

#[verifier::ext_equal]
pub ghost struct CustomSectionView {
    pub name: Seq<char>,
    pub size: u32,
}

#[verifier::ext_equal]
pub ghost struct ModuleInfoView {
    pub version: u32,
    pub imports: Seq<ImportView>,
    pub exports: Seq<ExportView>,
    pub functions: Seq<FunctionView>,
    pub memory: Option<Memory>,
    pub tables: Seq<TableView>,
    pub globals: Seq<GlobalView>,
    pub data_segments: Seq<DataSegment>,
    pub element_segments: Seq<ElementSegment>,
    pub start_function: Option<u32>,
    pub custom_sections: Seq<CustomSectionView>,
    pub function_call_instructions: Seq<(u32, u32)>,
    pub type_signatures: Seq<Seq<char>>,
}

#[verifier::ext_equal]
pub ghost struct CallNodeView {
    pub function_index: u32,
    pub name: Option<Seq<char>>,
    pub is_imported: bool,
    pub is_exported: bool,
    pub call_count: u32,
}

#[verifier::ext_equal]
pub ghost struct CallGraphView {
    pub nodes: Seq<CallNodeView>,
    pub edges: Seq<CallEdge>,
    pub entry_points: Seq<u32>,
    pub unreachable_functions: Seq<u32>,
}


// ----------------------------------------------------------------------------
// Views.

pub open spec fn view_of_opt_string(s: Option<String>) -> Option<Seq<char>> {
    match s {
        Some(t) => Some(t@),
        None => None,
    }
}

pub open spec fn locals_view(v: Seq<LocalType>) -> Seq<LocalTypeView> {
    v.map_values(|x: LocalType| x@)
}

pub open spec fn imports_view(v: Seq<Import>) -> Seq<ImportView> {
    v.map_values(|x: Import| x@)
}

pub open spec fn exports_view(v: Seq<Export>) -> Seq<ExportView> {
    v.map_values(|x: Export| x@)
}

pub open spec fn functions_view(v: Seq<Function>) -> Seq<FunctionView> {
    v.map_values(|x: Function| x@)
}

pub open spec fn tables_view(v: Seq<Table>) -> Seq<TableView> {
    v.map_values(|x: Table| x@)
}

pub open spec fn globals_view(v: Seq<Global>) -> Seq<GlobalView> {
    v.map_values(|x: Global| x@)
}

pub open spec fn customs_view(v: Seq<CustomSection>) -> Seq<CustomSectionView> {
    v.map_values(|x: CustomSection| x@)
}

pub open spec fn strings_view(v: Seq<String>) -> Seq<Seq<char>> {
    v.map_values(|x: String| x@)
}

pub open spec fn names_view(v: Seq<(u32, String)>) -> Seq<(u32, Seq<char>)> {
    v.map_values(|p: (u32, String)| (p.0, p.1@))
}

pub open spec fn nodes_view(v: Seq<CallNode>) -> Seq<CallNodeView> {
    v.map_values(|x: CallNode| x@)
}

impl View for TableType {
    type V = TableTypeView;

    open spec fn view(&self) -> TableTypeView {
        TableTypeView {
            element_type: self.element_type@,
            initial: self.initial,
            maximum: self.maximum,
        }
    }
}

impl View for GlobalType {
    type V = GlobalTypeView;

    open spec fn view(&self) -> GlobalTypeView {
        GlobalTypeView { value_type: self.value_type@, mutable: self.mutable }
    }
}

impl View for LocalType {
    type V = LocalTypeView;

    open spec fn view(&self) -> LocalTypeView {
        LocalTypeView { count: self.count, value_type: self.value_type@ }
    }
}

impl View for ImportKind {
    type V = ImportKindView;

    open spec fn view(&self) -> ImportKindView {
        match self {
            ImportKind::Function { type_index } => ImportKindView::Function {
                type_index: *type_index,
            },
            ImportKind::Table { table_type } => ImportKindView::Table { table_type: table_type@ },
            ImportKind::Memory { memory_type } => ImportKindView::Memory {
                memory_type: *memory_type,
            },
            ImportKind::Global { global_type } => ImportKindView::Global {
                global_type: global_type@,
            },
        }
    }
}

impl View for Import {
    type V = ImportView;

    open spec fn view(&self) -> ImportView {
        ImportView { module: self.module@, name: self.name@, kind: self.kind@, index: self.index }
    }
}

impl View for Export {
    type V = ExportView;

    open spec fn view(&self) -> ExportView {
        ExportView { name: self.name@, kind: self.kind, index: self.index }
    }
}

impl View for Function {
    type V = FunctionView;

    open spec fn view(&self) -> FunctionView {
        FunctionView {
            index: self.index,
            type_index: self.type_index,
            locals: locals_view(self.locals@),
            body_size: self.body_size,
            is_imported: self.is_imported,
            is_exported: self.is_exported,
            name: view_of_opt_string(self.name),
        }
    }
}

impl View for Table {
    type V = TableView;

    open spec fn view(&self) -> TableView {
        TableView {
            index: self.index,
            table_type: self.table_type@,
            is_imported: self.is_imported,
            is_exported: self.is_exported,
        }
    }
}

impl View for Global {
    type V = GlobalView;

    open spec fn view(&self) -> GlobalView {
        GlobalView {
            index: self.index,
            global_type: self.global_type@,
            init_value: view_of_opt_string(self.init_value),
            is_imported: self.is_imported,
            is_exported: self.is_exported,
        }
    }
}

impl View for CustomSection {
    type V = CustomSectionView;

    open spec fn view(&self) -> CustomSectionView {
        CustomSectionView { name: self.name@, size: self.size }
    }
}

impl View for ModuleInfo {
    type V = ModuleInfoView;

    open spec fn view(&self) -> ModuleInfoView {
        ModuleInfoView {
            version: self.version,
            imports: imports_view(self.imports@),
            exports: exports_view(self.exports@),
            functions: functions_view(self.functions@),
            memory: self.memory,
            tables: tables_view(self.tables@),
            globals: globals_view(self.globals@),
            data_segments: self.data_segments@,
            element_segments: self.element_segments@,
            start_function: self.start_function,
            custom_sections: customs_view(self.custom_sections@),
            function_call_instructions: self.function_call_instructions@,
            type_signatures: strings_view(self.type_signatures@),
        }
    }
}

impl View for CallNode {
    type V = CallNodeView;

    open spec fn view(&self) -> CallNodeView {
        CallNodeView {
            function_index: self.function_index,
            name: view_of_opt_string(self.name),
            is_imported: self.is_imported,
            is_exported: self.is_exported,
            call_count: self.call_count,
        }
    }
}

impl View for CallGraph {
    type V = CallGraphView;

    open spec fn view(&self) -> CallGraphView {
        CallGraphView {
            nodes: nodes_view(self.nodes@),
            edges: self.edges@,
            entry_points: self.entry_points@,
            unreachable_functions: self.unreachable_functions@,
        }
    }
}

} // verus!
