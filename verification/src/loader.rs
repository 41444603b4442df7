//! Loading a module: its bytes and format, parsing its metadata, and parsing the code of
//! its functions into IR.
use crate::error::{ParserError, ResourceBufferError};
use crate::basic_blocks::{extract_result, starts_with_end};
use crate::context::Context;
use crate::function_builder::{FunctionIRBuilder, NO_BB, lemma_live_in_ids};
use crate::function_parser::{expand_locals, locals_dec, straight_body, total_locals, FunctionParser};
use crate::ir::{BasicBlockID, FunctionIR, InstructionEncoder, INVALID_VAR};
use crate::module::{FunctionSource, FunctionUnparsed, ModuleMetadata};
use crate::module_parser::{meta_wf, module_owed, preamble_fail, version_message, ModuleParser};
use crate::reader::{le_u32, rest, WasmBinaryReader, LEB_OK};
use crate::types::FuncIdx;
use crate::sections::{meta_empty, meta_has_all_code, module_accepted, module_parsed, module_sections, same_shape};
use crate::types::Section;
use vstd::prelude::*;

verus! {

/// The format of a module's bytes.
#[derive(Debug, Clone, Copy, PartialEq, Eq, Structural)]
pub enum SourceFormat {
    /// A WebAssembly binary.
    Wasm,
    /// A precompiled module.
    Cwasm,
}

impl SourceFormat {
    /// The format named by a file's extension: `wasm` or `cwasm`.
    pub fn from_extension(ext: Option<String>) -> (r: Result<SourceFormat, ResourceBufferError>)
        ensures
            ext is None ==> (r matches Err(ResourceBufferError::InvalidFileEnding(m)) && m@
                == "no extension found"@),
            ext is Some && ext->0@ == "wasm"@ ==> r == Ok::<SourceFormat, ResourceBufferError>(
                SourceFormat::Wasm,
            ),
            ext is Some && ext->0@ == "cwasm"@ ==> r == Ok::<SourceFormat, ResourceBufferError>(
                SourceFormat::Cwasm,
            ),
            ext is Some && ext->0@ != "wasm"@ && ext->0@ != "cwasm"@ ==> r == Err::<
                SourceFormat,
                ResourceBufferError,
            >(ResourceBufferError::InvalidFileEnding(ext->0)),
    {
        proof {
            reveal_strlit("wasm");
            reveal_strlit("cwasm");
            assert("wasm"@.len() == 4);
            assert("cwasm"@.len() == 5);
        }
        match ext {
            None => {
                let m = String::from_str("no extension found");
                Err(ResourceBufferError::InvalidFileEnding(m))
            },
            Some(e) => {
                let wasm = String::from_str("wasm");
                let cwasm = String::from_str("cwasm");

                if e == wasm {
                    Ok(SourceFormat::Wasm)
                } else if e == cwasm {

                    Ok(SourceFormat::Cwasm)
                } else {
                    Err(ResourceBufferError::InvalidFileEnding(e))
                }
            },
        }
    }
}

/// The bytes of a module, with their format.
pub struct ResourceBuffer {
    source: Vec<u8>,
    kind: SourceFormat,
}

impl ResourceBuffer {
    /// The bytes held.
    pub closed spec fn bytes(&self) -> Seq<u8> {
        self.source@
    }

    /// The format of the bytes.
    pub closed spec fn format(&self) -> SourceFormat {
        self.kind
    }

    /// Bytes of a WebAssembly binary held in memory.
    pub fn from_wasm_buf(buf: Vec<u8>) -> (r: Self)
        ensures
            r.bytes() == buf@,
            r.format() == SourceFormat::Wasm,
    {
        ResourceBuffer { source: buf, kind: SourceFormat::Wasm }
    }

    /// Bytes read from a resource of format `kind`.
    pub fn from_bytes(bytes: Vec<u8>, kind: SourceFormat) -> (r: Self)
        ensures
            r.bytes() == bytes@,
            r.format() == kind,
    {
        ResourceBuffer { source: bytes, kind }
    }

    /// The bytes.
    pub fn get(&self) -> (s: &[u8])
        ensures
            s@ == self.bytes(),
    {
        self.source.as_slice()
    }

    /// The format of the bytes.
    pub fn kind(&self) -> (k: SourceFormat)
        ensures
            k == self.format(),
    {
        self.kind
    }
}

/// A parsed module: its metadata and the bytes it was parsed from.
pub struct Module {
    pub meta: ModuleMetadata,
    pub source: ResourceBuffer,
}

/// Whether `s` starts with the module preamble `\0asm`.
pub open spec fn has_magic(s: Seq<u8>) -> bool {
    s.len() >= 4 && s.subrange(0, 4) == seq![0u8, 0x61, 0x73, 0x6D]
}

/// Whether `s` starts with the preamble and version `1`.
pub open spec fn has_header(s: Seq<u8>) -> bool {
    has_magic(s) && s.len() >= 8 && le_u32(s[4], s[5], s[6], s[7]) == 1
}

/// Metadata that is consistent and gives each function code or an import.
pub open spec fn meta_complete(m: &ModuleMetadata) -> bool {
    &&& meta_wf(m)
    &&& forall|k: int| 0 <= k < m.functions@.len() ==> !((#[trigger] m.functions@[k]).source is Pending)
}

/// Parses modules.
pub struct Parser;

impl Parser {
    /// Parses the module held in `buf`.
    pub fn parse_from_buf(buf: Vec<u8>) -> (r: Result<Module, ParserError>)
        ensures
            match r {
                Ok(m) => {
                    &&& m.source.bytes() == buf@
                    &&& m.source.format() == SourceFormat::Wasm
                    &&& has_header(buf@)
                    &&& meta_complete(&m.meta)
                    &&& module_parsed(buf@, m.meta)
                },
                Err(e) => e is PositionalError,
            },
            buf@.len() < 4 ==> r is Err,
            preamble_fail(buf@, 0) < 4 && preamble_fail(buf@, 0) < buf@.len() ==> (r matches Err(
                ParserError::PositionalError(inner, pos),
            ) && (*inner matches ParserError::Msg(m) && m@ == "invalid WASM module preamble"@) && pos
                == preamble_fail(buf@, 0) + 1),
            has_magic(buf@) && buf@.len() >= 8 && !has_header(buf@) ==> (r matches Err(
                ParserError::PositionalError(inner, pos),
            ) && (*inner matches ParserError::Msg(m) && m@ == version_message(
                le_u32(buf@[4], buf@[5], buf@[6], buf@[7]),
            )) && pos == 8),
            !has_magic(buf@) ==> r is Err,
            has_magic(buf@) && buf@.len() < 8 ==> (r matches Err(ParserError::PositionalError(inner, _)) && *inner
                == ParserError::UnexpectedEOF),
            has_magic(buf@) && buf@.len() >= 8 && !has_header(buf@) ==> r is Err,
            buf@.len() == 8 && has_header(buf@) ==> r is Ok,
            has_header(buf@) && module_accepted(buf@) ==> r is Ok,
    {
        Self::parse(ResourceBuffer::from_wasm_buf(buf))
    }

    /// Parses the module held in `buffer`. An error comes with the position at which it arose.
    pub fn parse(buffer: ResourceBuffer) -> (r: Result<Module, ParserError>)
        ensures
            match r {
                Ok(m) => {
                    &&& m.source == buffer
                    &&& has_header(buffer.bytes())
                    &&& meta_complete(&m.meta)
                    &&& module_parsed(buffer.bytes(), m.meta)
                },
                Err(e) => e is PositionalError,
            },
            buffer.bytes().len() < 4 ==> r is Err,
            preamble_fail(buffer.bytes(), 0) < 4 && preamble_fail(buffer.bytes(), 0) < buffer.bytes().len() ==> (r matches Err(
                ParserError::PositionalError(inner, pos),
            ) && (*inner matches ParserError::Msg(m) && m@ == "invalid WASM module preamble"@) && pos
                == preamble_fail(buffer.bytes(), 0) + 1),
            has_magic(buffer.bytes()) && buffer.bytes().len() >= 8 && !has_header(buffer.bytes()) ==> (r matches Err(
                ParserError::PositionalError(inner, pos),
            ) && (*inner matches ParserError::Msg(m) && m@ == version_message(
                le_u32(buffer.bytes()[4], buffer.bytes()[5], buffer.bytes()[6], buffer.bytes()[7]),
            )) && pos == 8),
            !has_magic(buffer.bytes()) ==> r is Err,
            has_magic(buffer.bytes()) && buffer.bytes().len() < 8 ==> (r matches Err(
                ParserError::PositionalError(inner, _),
            ) && *inner == ParserError::UnexpectedEOF),
            has_magic(buffer.bytes()) && buffer.bytes().len() >= 8 && !has_header(buffer.bytes())
                ==> r is Err,
            buffer.bytes().len() == 8 && has_header(buffer.bytes()) ==> r is Ok,
            has_header(buffer.bytes()) && module_accepted(buffer.bytes()) ==> r is Ok,
    {
        let mut instance = ModuleParser::new(ModuleMetadata::new());
        let (result, pos) = {
            let input = buffer.get();
            let mut reader = WasmBinaryReader::new(input);
            proof {
                assert(reader.remaining() =~= buffer.bytes());
                if has_header(buffer.bytes()) && module_accepted(buffer.bytes()) {
                    let (secs, bounds, metas, nexts): (Seq<Section>, Seq<int>, Seq<ModuleMetadata>, Seq<u32>) = choose|
                        secs: Seq<Section>,
                        bounds: Seq<int>,
                        metas: Seq<ModuleMetadata>,
                        nexts: Seq<u32>,
                    |
                        #[trigger] module_sections(buffer.bytes(), 8, secs, bounds, metas, nexts) && meta_empty(metas[0])
                            && nexts[0] == 0 && meta_has_all_code(metas.last());
                    assert(metas[0].functions@ =~= instance.module.functions@);
                    assert(same_shape(metas[0], instance.module));
                    assert(module_sections(reader.source(), reader.position() + 8, secs, bounds, metas, nexts));
                    assert(module_owed(reader.source(), reader.position(), instance.module, instance.next_empty_function));
                }
            }
            let res = instance.parse_module(&mut reader);
            (res, reader.pos())
        };
        match result {
            Err(e) => Err(ParserError::PositionalError(Box::new(e), pos)),
            Ok(()) => Ok(Module { meta: instance.module, source: buffer }),
        }
    }
}

/// Parses the code of functions into IR.
pub struct FunctionLoader;

impl FunctionLoader {
    pub fn new() -> (l: Self) {
        FunctionLoader
    }

    /// Parses the code of function `function_idx`, which lies at `function_unparsed` in
    /// `buffer`, into `builder`.
    pub fn parse_single_function(
        &self,
        buffer: &ResourceBuffer,
        function_idx: FuncIdx,
        function_unparsed: &FunctionUnparsed,
        module: &ModuleMetadata,
        builder: &mut FunctionIRBuilder,
    ) -> (r: Result<(), ParserError>)
        requires
            old(builder).wf(),
        ensures
            function_unparsed.offset + function_unparsed.size > buffer.bytes().len() ==> r
                == Err::<(), ParserError>(ParserError::UnexpectedEOF),
            function_idx >= module.functions@.len() ==> r is Err,
            r is Ok ==> {
                let ft = module.function_types@[module.functions@[function_idx as int].type_idx as int];
                let code = rest(
                    buffer.bytes().subrange(0, function_unparsed.offset + function_unparsed.size),
                    function_unparsed.offset as int,
                );
                &&& function_idx < module.functions@.len()
                &&& locals_dec(code).0 == LEB_OK()
                &&& final(builder).wf()
                &&& final(builder).live(final(builder).current())
                &&& final(builder).current() == old(builder).count() + 1
                &&& final(builder).live(old(builder).count() as BasicBlockID)
                &&& final(builder).block(final(builder).current()).terminator is Return
                &&& ft@.1.len() < INVALID_VAR ==> final(builder).num_vars_spec() >= ft@.1.len()
                &&& final(builder).func_type_spec()@ == ft@
                &&& final(builder).locals_spec() == old(builder).locals_spec() + ft@.0 + expand_locals(
                    locals_dec(code).1,
                )
            },
            function_idx < module.functions@.len() && simple_body(buffer.bytes(), module, function_idx as int, *function_unparsed)
                && old(builder).count() + 2 < NO_BB ==> r is Ok,
            function_idx < module.functions@.len() && trivial_body_with_results(
                buffer.bytes(),
                module,
                function_idx as int,
                *function_unparsed,
            ) && old(builder).count() + 2 < NO_BB ==> (r matches Err(ParserError::ValidationError(_))),
            ({
                let code = rest(
                    buffer.bytes().subrange(0, function_unparsed.offset + function_unparsed.size),
                    function_unparsed.offset as int,
                );
                function_unparsed.offset + function_unparsed.size <= buffer.bytes().len() && function_idx
                    < module.functions@.len() && module.functions@[function_idx as int].type_idx
                    < module.function_types@.len() && locals_dec(code).0 == LEB_OK() && total_locals(
                    locals_dec(code).1,
                ) > u32::MAX ==> (r matches Err(ParserError::Msg(m)) && m@ == "too many locals"@)
            }),
            r is Err ==> final(builder).num_vars_spec() == old(builder).num_vars_spec(),
            forall|rs: Seq<WasmBinaryReader>, re: Seq<WasmBinaryReader>, xs: Seq<Context>, os: Seq<InstructionEncoder>|
                function_idx < module.functions@.len() && old(builder).count() + 2 < NO_BB
                    && #[trigger] straight_code(buffer.bytes(), module, function_idx as int, *function_unparsed, rs, re, xs, os)
                    ==> {
                    let m = xs.last().model();
                    let ft = module.function_types@[module.functions@[function_idx as int].type_idx as int];
                    &&& (r is Ok <==> !m.poisoned && extract_result(m, ft@.1, true) is Some)
                    &&& r is Err ==> (r matches Err(ParserError::ValidationError(_)))
                    &&& r is Ok ==> final(builder).num_vars_spec() == m.var_count
                    &&& r is Ok ==> final(builder).stored(old(builder).count() as BasicBlockID).instructions()
                        == os.last().instructions()
                },
    {
        FunctionParser::parse_single_function(
            buffer.get(),
            function_idx,
            function_unparsed.offset,
            function_unparsed.size,
            module,
            builder,
        )
    }

    /// Parses the code of every function of `module` into IR, in index order; an imported
    /// function gets an empty IR. Only WebAssembly binaries are parsed here.
    pub fn parse_all_functions(&self, module: &Module) -> (r: Result<Vec<FunctionIR>, ParserError>)
        ensures
            module.source.format() == SourceFormat::Cwasm ==> (r matches Err(ParserError::Msg(_))),
            r matches Ok(ir) ==> {
                &&& module.source.format() == SourceFormat::Wasm
                &&& ir@.len() == module.meta.functions@.len()
                &&& forall|j: int|
                    0 <= j < ir@.len() ==> #[trigger] ir_matches(
                        module.source.bytes(),
                        &module.meta,
                        j,
                        ir@[j],
                    )
            },
            module.source.format() == SourceFormat::Wasm && module.meta.functions@.len() <= u32::MAX && (forall|j: int|
                0 <= j < module.meta.functions@.len() ==> match (#[trigger] module.meta.functions@[j]).source {
                    FunctionSource::Import(_) => true,
                    FunctionSource::Wasm(u) => simple_body(module.source.bytes(), &module.meta, j, u),
                    FunctionSource::Pending => false,
                }) ==> r is Ok,
            r is Err && module.source.format() == SourceFormat::Wasm ==> exists|j: int|
                0 <= j < module.meta.functions@.len() && (#[trigger] module.meta.functions@[j]).source !is Import,
    {
        if module.source.kind() == SourceFormat::Cwasm {
            return Err(ParserError::msg("AOT execution is only supported via the llvm function parser."));
        }
        let n = module.meta.functions.len();
        let mut ir: Vec<FunctionIR> = Vec::new();
        let mut func_idx: usize = 0;
        while func_idx < n
            invariant
                n == module.meta.functions@.len(),
                func_idx <= n,
                ir@.len() == func_idx,
                module.source.format() == SourceFormat::Wasm,
                forall|j: int| 0 <= j < func_idx ==> #[trigger] ir_matches(
                    module.source.bytes(),
                    &module.meta,
                    j,
                    ir@[j],
                ),
            decreases n - func_idx,
        {
            let source = module.meta.functions[func_idx].source;
            match source {
                FunctionSource::Import(_) => {
                    ir.push(FunctionIR::new());
                },
                FunctionSource::Pending => {
                    proof {
                        assert(module.meta.functions@[func_idx as int].source !is Import);
                    }
                    return Err(ParserError::MissingFunctionImplementation(func_idx as u32));
                },
                FunctionSource::Wasm(function_unparsed) => {
                    if func_idx > u32::MAX as usize {
                        return Err(ParserError::msg("function index out of bounds"));
                    }
                    let mut builder = FunctionIRBuilder::new();
                    let res = self.parse_single_function(
                        &module.source,
                        func_idx as u32,
                        &function_unparsed,
                        &module.meta,
                        &mut builder,
                    );
                    match res {
                        Ok(()) => {},
                        Err(e) => {
                            proof {
                                assert(module.meta.functions@[func_idx as int].source !is Import);
                            }
                            return Err(e);
                        },
                    }
                    proof {
                        lemma_live_in_ids(builder.bbs@, builder.bbs@.len(), builder.current());
                    }
                    let ghost b = builder;
                    let f = builder.finalize();
                    proof {
                        let j = choose|j: int| 0 <= j < b.live_ids().len() && b.live_ids()[j] == b.current();
                        assert(f.bbs@[j].terminator is Return);
                        lemma_live_in_ids(b.bbs@, b.bbs@.len(), 0);
                        let k = choose|k: int| 0 <= k < b.live_ids().len() && b.live_ids()[k] == 0;
                        assert(f.bbs@[k].id == 0);
                        assert(f.bbs@[k].instructions@ == b.stored(0).instructions());
                        assert forall|rs: Seq<WasmBinaryReader>, re: Seq<WasmBinaryReader>, xs: Seq<Context>, os: Seq<InstructionEncoder>|
                            #[trigger] straight_code(module.source.bytes(), &module.meta, func_idx as int, function_unparsed, rs, re, xs, os)
                            implies {
                                let m = xs.last().model();
                                let ft = module.meta.function_types@[module.meta.functions@[func_idx as int].type_idx as int];
                                &&& !m.poisoned
                                &&& extract_result(m, ft@.1, true) is Some
                                &&& f.num_vars == m.var_count
                                &&& exists|k: int| 0 <= k < f.bbs@.len() && (#[trigger] f.bbs@[k]).id == 0
                                    && f.bbs@[k].instructions@ == os.last().instructions()
                            } by {
                            assert(f.bbs@[k].id == 0);
                        }
                    }
                    ir.push(f);
                },
            }
            proof {
                assert forall|j: int| 0 <= j < func_idx + 1 implies #[trigger] ir_matches(
                    module.source.bytes(),
                    &module.meta,
                    j,
                    ir@[j],
                ) by {}
            }
            func_idx = func_idx + 1;
        }
        Ok(ir)
    }
}

/// Whether the code of function `j` of `meta`, at `u` in `bytes`, is a well-formed local
/// declaration followed directly by `end`, in a function without results: such a function
/// always parses.
pub open spec fn simple_body(bytes: Seq<u8>, meta: &ModuleMetadata, j: int, u: FunctionUnparsed) -> bool {
    let code = rest(bytes.subrange(0, u.offset + u.size), u.offset as int);
    let d = locals_dec(code);
    &&& u.offset + u.size <= bytes.len()
    &&& meta.functions@[j].type_idx < meta.function_types@.len()
    &&& d.0 == LEB_OK()
    &&& total_locals(d.1) <= u32::MAX
    &&& meta.function_types@[meta.functions@[j].type_idx as int]@.1.len() == 0
    &&& starts_with_end(rest(code, d.2 as int))
}

/// Whether the code of function `j` of `meta`, at `u` in `bytes`, is a well-formed local
/// declaration followed directly by `end`, in a function with results: such a body leaves no
/// value for the results and fails validation.
pub open spec fn trivial_body_with_results(bytes: Seq<u8>, meta: &ModuleMetadata, j: int, u: FunctionUnparsed) -> bool {
    let code = rest(bytes.subrange(0, u.offset + u.size), u.offset as int);
    let d = locals_dec(code);
    &&& u.offset + u.size <= bytes.len()
    &&& meta.functions@[j].type_idx < meta.function_types@.len()
    &&& d.0 == LEB_OK()
    &&& total_locals(d.1) <= u32::MAX
    &&& meta.function_types@[meta.functions@[j].type_idx as int]@.1.len() > 0
    &&& starts_with_end(rest(code, d.2 as int))
}

/// Whether the code of function `j` of `meta`, at `u` in `bytes`, is a well-formed local
/// declaration followed by a body with no control flow, as `straight_body` describes it with
/// `rs`, `re`, `xs` and `os`.
pub open spec fn straight_code(
    bytes: Seq<u8>,
    meta: &ModuleMetadata,
    j: int,
    u: FunctionUnparsed,
    rs: Seq<WasmBinaryReader>,
    re: Seq<WasmBinaryReader>,
    xs: Seq<Context>,
    os: Seq<InstructionEncoder>,
) -> bool {
    let code = rest(bytes.subrange(0, u.offset + u.size), u.offset as int);
    let d = locals_dec(code);
    let ft = meta.function_types@[meta.functions@[j].type_idx as int];
    &&& u.offset + u.size <= bytes.len()
    &&& meta.functions@[j].type_idx < meta.function_types@.len()
    &&& d.0 == LEB_OK()
    &&& total_locals(d.1) <= u32::MAX
    &&& straight_body(bytes.subrange(0, u.offset + u.size), u.offset + d.2, meta, ft@.0 + expand_locals(d.1), ft@.1, rs, re, xs, os)
}

/// What the IR of function `j` of `meta` is, the module's bytes being `bytes`: an import has an
/// empty IR; the IR of a function with code has its parameters, then its declared locals, as
/// locals.
pub open spec fn ir_matches(bytes: Seq<u8>, meta: &ModuleMetadata, j: int, f: FunctionIR) -> bool {
    match meta.functions@[j].source {
        FunctionSource::Import(_) => {
            &&& f.bbs@.len() == 0
            &&& f.num_vars == 0
            &&& f.locals@.len() == 0
        },
        FunctionSource::Wasm(u) => {
            let ft = meta.function_types@[meta.functions@[j].type_idx as int];
            let code = rest(bytes.subrange(0, u.offset + u.size), u.offset as int);
            &&& locals_dec(code).0 == LEB_OK()
            &&& f.locals@ == ft@.0 + expand_locals(locals_dec(code).1)
            &&& exists|k: int| 0 <= k < f.bbs@.len() && (#[trigger] f.bbs@[k]).terminator is Return
            &&& ft@.1.len() < INVALID_VAR ==> f.num_vars >= ft@.1.len()
            &&& forall|rs: Seq<WasmBinaryReader>, re: Seq<WasmBinaryReader>, xs: Seq<Context>, os: Seq<InstructionEncoder>|
                #[trigger] straight_code(bytes, meta, j, u, rs, re, xs, os) ==> {
                    let m = xs.last().model();
                    &&& !m.poisoned
                    &&& extract_result(m, ft@.1, true) is Some
                    &&& f.num_vars == m.var_count
                    &&& exists|k: int| 0 <= k < f.bbs@.len() && (#[trigger] f.bbs@[k]).id == 0
                        && f.bbs@[k].instructions@ == os.last().instructions()
                }
        },
        FunctionSource::Pending => false,
    }
}

} // verus!
