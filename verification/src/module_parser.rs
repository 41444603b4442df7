//! Parses the sections of a module binary into its metadata. Function bodies are not parsed
//! here: the code section only records where each body lies.
use crate::basic_blocks::lemma_remaining_shrinks;
use crate::decode::{functype_dec, name_dec, read_bytes, read_functype, read_name, read_u32_imm, u32_dec};
use crate::error::{ParserError, append_decimal};
use crate::instance::decimal;
use crate::module::{
    Data, DataMode, Export, Function, FunctionImport, FunctionSource, Global, Memory, ModuleMetadata,
    Table, WasmExports,
};
use crate::module_decode::{
    progressed, read_constant_expression, read_element, read_export, read_global,
    read_import, read_memory, read_section, read_table,
};
use crate::reader::{LEB_OK, WasmBinaryReader, le_u32, rest};
use crate::decode::lemma_rest_advance;
use crate::functypes::FuncType;
use crate::sections::{
    element_item, element_section_effect, functype_item, global_item, global_section_effect, items_dec,
    table_item, table_section_effect, memory_section_effect, start_section_effect,
    datacount_section_effect, custom_section_effect, desc_views, export_item, export_section_effect,
    exports_of, function_section_effect, u32_item, import_item, import_section_effect, import_views,
    imported_functions, imported_globals, imported_memories, imported_tables, imports_typed, recorded_imports,
    same_except, MetaPart, section_ok, lemma_items_prefix, lemma_section_ok, lemma_section_det, lemma_sections_at,
    same_shape, meta_has_all_code, last_order, lemma_last_order_push, lemma_sections_push, lemma_sections_start, module_end, module_sections, section_effect, sections_prefix,
    code_bodies, code_section_effect, data_item, data_section_effect, type_section_dec, type_section_effect, vec_section,
};
use crate::module::Element;
use crate::module_decode::{data_view, element_matches, export_view, read_data_segment};
use crate::module::FunctionUnparsed;
use crate::types::{FuncIdx, ImportDesc, Section, section_of_id, section_order};
use crate::module::ConstantValue;
use vstd::prelude::*;

verus! {

/// Metadata whose indices are consistent: every function has a known type, the start function
/// and every function export name a known function.
pub open spec fn meta_wf(m: &ModuleMetadata) -> bool {
    &&& forall|k: int| 0 <= k < m.functions@.len() ==> (#[trigger] m.functions@[k]).type_idx < m.function_types@.len()
    &&& (m.entry_point matches Some(e) ==> e < m.functions@.len())
    &&& forall|k: int|
        0 <= k < m.exports.functions@.len() ==> (#[trigger] m.exports.functions@[k]).idx < m.functions@.len()
}

/// Whether the section `section` may follow non-custom sections up to order `last` (`-1` for
/// none): no section follows the data section, and each comes after the ones before it.
pub open spec fn section_may_follow(last: i32, section: Section) -> bool {
    last < section_order(Section::Data) && section_order(section) > last
}

/// The message for a section that may not follow non-custom sections up to order `last`: none
/// may follow the data section, and each must come after the ones before it.
pub open spec fn order_message(last: i32) -> Seq<char> {
    if last >= section_order(Section::Data) {
        "invalid additional module section"@
    } else {
        "invalid module section order"@
    }
}

/// Checks that `section` may come after non-custom sections up to order `last`.
pub fn check_section_order(last: i32, section: Section) -> (r: Result<(), ParserError>)
    ensures
        r is Ok <==> section_may_follow(last, section),
        r is Err ==> (r matches Err(ParserError::Msg(m)) && m@ == order_message(last)),
{
    if last >= Section::Data.order() {
        return Err(ParserError::msg("invalid additional module section"));
    }
    if section.order() <= last {
        return Err(ParserError::msg("invalid module section order"));
    }
    Ok(())
}

/// A sequence of non-custom sections is accepted one after the other exactly when their orders
/// strictly increase: each section occurs at most once and in the prescribed order.
pub proof fn law_section_order(sections: Seq<Section>)
    requires
        forall|k: int| 0 <= k < sections.len() ==> #[trigger] sections[k] != Section::Custom,
        forall|k: int|
            0 <= k < sections.len() ==> section_may_follow(
                if k == 0 {
                    -1i32
                } else {
                    section_order(sections[k - 1])
                },
                #[trigger] sections[k],
            ),
    ensures
        forall|a: int, b: int| 0 <= a < b < sections.len() ==> section_order(sections[a]) < section_order(
            sections[b],
        ),
        forall|a: int, b: int| 0 <= a < b < sections.len() ==> sections[a] != sections[b],
    decreases sections.len(),
{
    if sections.len() > 0 {
        let p = sections.drop_last();
        assert forall|k: int| 0 <= k < p.len() implies #[trigger] p[k] != Section::Custom by {
            assert(p[k] == sections[k]);
        }
        assert forall|k: int| 0 <= k < p.len() implies section_may_follow(
            if k == 0 {
                -1i32
            } else {
                section_order(p[k - 1])
            },
            #[trigger] p[k],
        ) by {
            assert(p[k] == sections[k]);
            assert(sections[k] == p[k]);
            if k > 0 {
                assert(p[k - 1] == sections[k - 1]);
            }
        }
        law_section_order(p);
        let n = sections.len() - 1;
        assert forall|a: int, b: int| 0 <= a < b < sections.len() implies section_order(sections[a])
            < section_order(sections[b]) by {
            if b < n {
                assert(p[a] == sections[a] && p[b] == sections[b]);
            } else {
                if a < n - 1 {
                    assert(p[a] == sections[a] && p[n - 1] == sections[n - 1]);
                }
                assert(section_may_follow(section_order(sections[n - 1]), sections[n]));
            }
        }
    }
}

/// Where the preamble `\0asm` at the start of `s` fails, looking from byte `k` on: the first
/// byte that differs, or the end of `s`; `4` where the preamble is all there.
pub open spec fn preamble_fail(s: Seq<u8>, k: int) -> int
    decreases 4 - k,
{
    if k >= 4 {
        4
    } else if k >= s.len() || s[k] != seq![0u8, 0x61, 0x73, 0x6D][k] {
        k
    } else {
        preamble_fail(s, k + 1)
    }
}

/// The message for a module of version `v`, which is not `1`.
pub open spec fn version_message(v: nat) -> Seq<char> {
    "invalid WASM module version \""@ + decimal(v) + "\""@
}

/// The message for a code section with `k` bodies in a module of `f` functions, `k > f`.
pub open spec fn code_size_message(k: nat, f: nat) -> Seq<char> {
    "code section size "@ + decimal(k) + " larger than function count "@ + decimal(f)
}

/// Whether parsing the module binary at position `p` of `src`, into metadata shaped like `m0`
/// with next function without code `n0`, must succeed: the header is `\0asm` and version `1`,
/// and the sections that follow, read one after the other, leave every function with code or
/// imported.
pub open spec fn module_owed(src: Seq<u8>, p: int, m0: ModuleMetadata, n0: u32) -> bool {
    let s = rest(src, p);
    &&& s.len() >= 8 && s.subrange(0, 4) == seq![0u8, 0x61, 0x73, 0x6D] && le_u32(s[4], s[5], s[6], s[7]) == 1
    &&& exists|secs: Seq<Section>, bounds: Seq<int>, metas: Seq<ModuleMetadata>, nexts: Seq<u32>|
        #[trigger] module_sections(src, p + 8, secs, bounds, metas, nexts) && same_shape(metas[0], m0) && nexts[0]
            == n0 && meta_has_all_code(metas.last())
}

/// Whether the section whose id byte is at `b` of `src` may not follow the sections `secs`:
/// it is not a custom section, and either comes after the data section (`after_data`) or not
/// after the sections before it.
pub open spec fn misplaced_next(src: Seq<u8>, secs: Seq<Section>, b: int, after_data: bool) -> bool {
    &&& 0 <= b < src.len()
    &&& section_of_id(src[b]) is Some
    &&& section_of_id(src[b])->0 != Section::Custom
    &&& !section_may_follow(last_order(secs), section_of_id(src[b])->0)
    &&& after_data == (last_order(secs) >= section_order(Section::Data))
}

/// Whether the module binary at position `p` of `src`, parsed into metadata shaped like `m0` with
/// next function without code `n0`, has a valid header and sections that are read one after
/// the other up to one that may not follow them (see `misplaced_next`).
pub open spec fn section_misplaced(src: Seq<u8>, p: int, m0: ModuleMetadata, n0: u32, after_data: bool) -> bool {
    let s = rest(src, p);
    &&& s.len() >= 8 && s.subrange(0, 4) == seq![0u8, 0x61, 0x73, 0x6D] && le_u32(s[4], s[5], s[6], s[7]) == 1
    &&& exists|secs: Seq<Section>, bounds: Seq<int>, metas: Seq<ModuleMetadata>, nexts: Seq<u32>|
        #[trigger] sections_prefix(src, p + 8, secs, bounds, metas, nexts) && same_shape(metas[0], m0) && nexts[0]
            == n0 && misplaced_next(src, secs, bounds.last(), after_data)
}

/// Parses the sections of a module into its metadata.
pub struct ModuleParser {
    pub module: ModuleMetadata,
    pub is_complete: bool,
    /// Functions below this index have code or are imports.
    pub next_empty_function: FuncIdx,
}

impl ModuleParser {
    /// What the parser keeps: consistent metadata, and code for every function below
    /// `next_empty_function` that is not an import.
    pub open spec fn wf(&self) -> bool {
        &&& meta_wf(&self.module)
        &&& self.next_empty_function <= self.module.functions@.len()
        &&& forall|k: int|
            0 <= k < self.next_empty_function ==> !((#[trigger] self.module.functions@[k]).source is Pending)
    }

    /// A parser for a new module.
    pub fn new(module: ModuleMetadata) -> (p: Self)
        ensures
            p.module == module,
            !p.is_complete,
            p.next_empty_function == 0,
    {
        ModuleParser { module, is_complete: false, next_empty_function: 0 }
    }

    /// Parses a module: the preamble `\0asm`, version `1`, then the sections. On success every
    /// function has code or is an import.
    #[verifier::spinoff_prover]
    #[verifier::rlimit(40)]
    pub fn parse_module(&mut self, i: &mut WasmBinaryReader) -> (r: Result<(), ParserError>)
        requires
            old(self).wf(),
        ensures
            progressed(*old(i), *final(i)),
            ({
                let s = old(i).remaining();
                let magic = seq![0u8, 0x61, 0x73, 0x6D];
                &&& r is Ok ==> s.len() >= 8 && s.subrange(0, 4) == magic && le_u32(s[4], s[5], s[6], s[7]) == 1
                &&& s.len() >= 4 && s.subrange(0, 4) != magic ==> (r matches Err(ParserError::Msg(_)))
                &&& s.len() < 4 ==> r is Err
                &&& s.len() >= 4 && s.subrange(0, 4) == magic && s.len() < 8 ==> r == Err::<(), ParserError>(
                    ParserError::UnexpectedEOF,
                )
                &&& s.len() >= 8 && s.subrange(0, 4) == magic && le_u32(s[4], s[5], s[6], s[7]) != 1 ==> (r matches Err(
                    ParserError::Msg(m),
                ) && m@ == version_message(le_u32(s[4], s[5], s[6], s[7]))) && final(i).position() == old(i).position()
                    + 8
                &&& preamble_fail(s, 0) < 4 && preamble_fail(s, 0) < s.len() ==> (r matches Err(ParserError::Msg(m))
                    && m@ == "invalid WASM module preamble"@) && final(i).position() == old(i).position()
                    + preamble_fail(s, 0) + 1
                &&& preamble_fail(s, 0) < 4 && preamble_fail(s, 0) >= s.len() ==> r == Err::<(), ParserError>(
                    ParserError::UnexpectedEOF,
                ) && final(i).position() == old(i).position() + preamble_fail(s, 0)
                &&& s.len() == 8 && s.subrange(0, 4) == magic && le_u32(s[4], s[5], s[6], s[7]) == 1
                    && old(self).next_empty_function == old(self).module.functions@.len() ==> r is Ok
            }),
            r is Ok ==> {
                &&& final(self).wf()
                &&& final(i).position() >= final(i).source().len()
                &&& final(self).is_complete
                &&& forall|k: int|
                    0 <= k < final(self).module.functions@.len() ==> !((#[trigger] final(self).module.functions@[k]).source is Pending)
                &&& exists|secs: Seq<Section>, bounds: Seq<int>, metas: Seq<ModuleMetadata>, nexts: Seq<u32>|
                    #[trigger] module_sections(old(i).source(), old(i).position() + 8, secs, bounds, metas, nexts)
                        && metas[0] == old(self).module && nexts[0] == old(self).next_empty_function
                        && metas.last() == final(self).module && nexts.last() == final(self).next_empty_function
            },
            module_owed(old(i).source(), old(i).position(), old(self).module, old(self).next_empty_function) ==> r is Ok,
            r is Err ==> final(self).is_complete == old(self).is_complete,
            section_misplaced(old(i).source(), old(i).position(), old(self).module, old(self).next_empty_function, true)
                ==> (r matches Err(ParserError::Msg(m)) && m@ == "invalid additional module section"@),
            section_misplaced(old(i).source(), old(i).position(), old(self).module, old(self).next_empty_function, false)
                ==> (r matches Err(ParserError::Msg(m)) && m@ == "invalid module section order"@),
    {
        let preamble: [u8; 4] = [0, 0x61, 0x73, 0x6D];
        let ghost s = i.remaining();
        let ghost p0 = i.position();
        let ghost hyp = module_owed(old(i).source(), old(i).position(), old(self).module, old(self).next_empty_function);
        let ghost (ts, tb, tm, tn): (Seq<Section>, Seq<int>, Seq<ModuleMetadata>, Seq<u32>) = choose|
            secs: Seq<Section>,
            bounds: Seq<int>,
            metas: Seq<ModuleMetadata>,
            nexts: Seq<u32>,
        |
            #[trigger] module_sections(old(i).source(), old(i).position() + 8, secs, bounds, metas, nexts) && same_shape(
                metas[0],
                old(self).module,
            ) && nexts[0] == old(self).next_empty_function && meta_has_all_code(metas.last());
        let ghost ha = section_misplaced(old(i).source(), old(i).position(), old(self).module, old(self).next_empty_function, true);
        let ghost (sa, ba, ma, na): (Seq<Section>, Seq<int>, Seq<ModuleMetadata>, Seq<u32>) = choose|
            secs: Seq<Section>,
            bounds: Seq<int>,
            metas: Seq<ModuleMetadata>,
            nexts: Seq<u32>,
        |
            #[trigger] sections_prefix(old(i).source(), old(i).position() + 8, secs, bounds, metas, nexts) && same_shape(
                metas[0],
                old(self).module,
            ) && nexts[0] == old(self).next_empty_function && misplaced_next(old(i).source(), secs, bounds.last(), true);
        let ghost ho = section_misplaced(old(i).source(), old(i).position(), old(self).module, old(self).next_empty_function, false);
        let ghost (so, bo, mo, no): (Seq<Section>, Seq<int>, Seq<ModuleMetadata>, Seq<u32>) = choose|
            secs: Seq<Section>,
            bounds: Seq<int>,
            metas: Seq<ModuleMetadata>,
            nexts: Seq<u32>,
        |
            #[trigger] sections_prefix(old(i).source(), old(i).position() + 8, secs, bounds, metas, nexts) && same_shape(
                metas[0],
                old(self).module,
            ) && nexts[0] == old(self).next_empty_function && misplaced_next(old(i).source(), secs, bounds.last(), false);
        let mut k: usize = 0;
        proof {
            i.lemma_position();
        }
        while k < 4
            invariant
                k <= 4,
                i.source() == old(i).source(),
                p0 == old(i).position(),
                s == old(i).remaining(),
                i.position() == p0 + k,
                k <= s.len(),
                preamble@ == seq![0u8, 0x61, 0x73, 0x6D],
                forall|j: int| 0 <= j < k ==> s[j] == preamble@[j],
                hyp == module_owed(old(i).source(), old(i).position(), old(self).module, old(self).next_empty_function),
                s.len() > 0 ==> s.len() == i.source().len() - p0,
                preamble_fail(s, 0) == preamble_fail(s, k as int),
                self.is_complete == old(self).is_complete,
                ha == section_misplaced(old(i).source(), old(i).position(), old(self).module, old(self).next_empty_function, true),
                ho == section_misplaced(old(i).source(), old(i).position(), old(self).module, old(self).next_empty_function, false),
            decreases 4 - k,
        {
            proof {
                i.lemma_position();
            }
            let b = i.read_byte()?;
            if b != preamble[k] {
                proof {
                    assert(s[k as int] != seq![0u8, 0x61, 0x73, 0x6D][k as int]);
                    if hyp || ha || ho {
                        assert(s.subrange(0, 4)[k as int] == s[k as int]);
                    }
                    if s.len() >= 4 {
                        assert(s.subrange(0, 4)[k as int] == s[k as int]);
                    }
                }
                return Err(ParserError::msg("invalid WASM module preamble"));
            }
            k = k + 1;
        }
        proof {
            assert(preamble_fail(s, 0) == 4);
            assert(s.subrange(0, 4) =~= seq![0u8, 0x61, 0x73, 0x6D]);
            i.lemma_position();
            old(i).lemma_position();
        }
        let version = i.read_u32()?;
        proof {
            assert(s[4] == i.source()[p0 + 4]);
            assert(s[5] == i.source()[p0 + 5]);
            assert(s[6] == i.source()[p0 + 6]);
            assert(s[7] == i.source()[p0 + 7]);
        }
        if version != 1 {
            let mut message = String::from_str("invalid WASM module version \"");
            append_decimal(&mut message, version as u64);
            message.append("\"");
            return Err(ParserError::Msg(message));
        }
        let mut last_section_number: i32 = -1;
        let mut done = false;
        let ghost src = old(i).source();
        let ghost start = old(i).position() + 8;
        let ghost mut secs: Seq<Section> = Seq::empty();
        let ghost mut bounds: Seq<int> = seq![start];
        let ghost mut metas: Seq<ModuleMetadata> = seq![self.module];
        let ghost mut nexts: Seq<u32> = seq![self.next_empty_function];
        proof {
            i.lemma_position();
            lemma_sections_start(src, start, self.module, self.next_empty_function);
            if hyp {
                assert(ts.take(0) =~= secs);
            }
        }
        while !done
            invariant
                src == old(i).source(),
                start == old(i).position() + 8,
                sections_prefix(src, start, secs, bounds, metas, nexts),
                metas[0] == old(self).module,
                nexts[0] == old(self).next_empty_function,
                metas.last() == self.module,
                nexts.last() == self.next_empty_function,
                last_section_number == last_order(secs),
                preamble_fail(s, 0) == 4,
                self.is_complete == old(self).is_complete,
                hyp == module_owed(src, old(i).position(), old(self).module, old(self).next_empty_function),
                hyp ==> module_sections(src, start, ts, tb, tm, tn) && same_shape(tm[0], old(self).module) && tn[0]
                    == old(self).next_empty_function && meta_has_all_code(tm.last()),
                hyp ==> secs.len() <= ts.len() && secs == ts.take(secs.len() as int),
                hyp && !done ==> bounds.last() == tb[secs.len() as int],
                hyp ==> same_shape(tm[secs.len() as int], self.module) && tn[secs.len() as int] == self.next_empty_function,
                hyp && done ==> secs.len() == ts.len(),
                ha == section_misplaced(src, old(i).position(), old(self).module, old(self).next_empty_function, true),
                ha ==> sections_prefix(src, start, sa, ba, ma, na) && same_shape(ma[0], old(self).module) && na[0]
                    == old(self).next_empty_function && misplaced_next(src, sa, ba.last(), true),
                ha ==> secs.len() <= sa.len() && secs == sa.take(secs.len() as int),
                ha ==> !done && bounds.last() == ba[secs.len() as int],
                ha ==> same_shape(ma[secs.len() as int], self.module) && na[secs.len() as int] == self.next_empty_function,
                ho == section_misplaced(src, old(i).position(), old(self).module, old(self).next_empty_function, false),
                ho ==> sections_prefix(src, start, so, bo, mo, no) && same_shape(mo[0], old(self).module) && no[0]
                    == old(self).next_empty_function && misplaced_next(src, so, bo.last(), false),
                ho ==> secs.len() <= so.len() && secs == so.take(secs.len() as int),
                ho ==> !done && bounds.last() == bo[secs.len() as int],
                ho ==> same_shape(mo[secs.len() as int], self.module) && no[secs.len() as int] == self.next_empty_function,
                !done ==> bounds.last() == i.position(),
                done ==> module_end(src, bounds.last()),
                self.wf(),
                progressed(*old(i), *i),
                s.len() >= 8 && s.subrange(0, 4) == seq![0u8, 0x61, 0x73, 0x6D] && le_u32(s[4], s[5], s[6], s[7]) == 1,
                s == old(i).remaining(),
                s.len() == 8 ==> i.position() == old(i).position() + 8 && self.module == old(self).module
                    && self.next_empty_function == old(self).next_empty_function,
                -1 <= last_section_number <= section_order(Section::Data) || done,
                done ==> i.position() >= i.source().len(),
            decreases i.remaining().len() + if done {
                0nat
            } else {
                1nat
            },
        {
            let ghost rem = i.remaining().len();
            let ghost b = i.position();
            let ghost m_before = self.module;
            let ghost n_before = self.next_empty_function;
            let ghost kk = secs.len() as int;
            proof {
                i.lemma_position();
                if hyp && kk < ts.len() {
                    lemma_sections_at(src, start, ts, tb, tm, tn, kk);
                    lemma_section_ok(ts[kk], src, tb[kk] + 1, tm[kk], tn[kk], tm[kk + 1], tn[kk + 1], tb[kk + 1], self.module);
                }
                if hyp && kk == ts.len() {
                    assert(tb.last() == tb[kk]);
                }
                if ha && kk < sa.len() {
                    lemma_sections_at(src, start, sa, ba, ma, na, kk);
                    lemma_section_ok(sa[kk], src, ba[kk] + 1, ma[kk], na[kk], ma[kk + 1], na[kk + 1], ba[kk + 1], self.module);
                }
                if ha && kk == sa.len() {
                    assert(ba.last() == ba[kk]);
                    assert(secs =~= sa);
                }
                if ho && kk < so.len() {
                    lemma_sections_at(src, start, so, bo, mo, no, kk);
                    lemma_section_ok(so[kk], src, bo[kk] + 1, mo[kk], no[kk], mo[kk + 1], no[kk + 1], bo[kk + 1], self.module);
                }
                if ho && kk == so.len() {
                    assert(bo.last() == bo[kk]);
                    assert(secs =~= so);
                }
            }
            let section = match read_section(i) {
                Ok(section) => section,
                Err(e) => {
                    let at_end = i.eof()?;
                    if at_end {
                        done = true;
                        continue;
                    }
                    return Err(e);
                },
            };
            proof {
                i.lemma_position();
                assert(src[b] == i.source()[b]);
            }
            if section == Section::Custom {
                self.parse_custom_section(i)?;
            } else {
                check_section_order(last_section_number, section)?;
                match section {
                    Section::Type => self.parse_type_section(i)?,
                    Section::Import => self.parse_import_section(i)?,
                    Section::Function => self.parse_function_section(i)?,
                    Section::Table => self.parse_table_section(i)?,
                    Section::Memory => self.parse_memory_section(i)?,
                    Section::Global => self.parse_global_section(i)?,
                    Section::Export => self.parse_export_section(i)?,
                    Section::Start => self.parse_start_section(i)?,
                    Section::Element => self.parse_element_section(i)?,
                    Section::DataCount => self.parse_datacount_section(i)?,
                    Section::Code => self.parse_code_section(i)?,
                    Section::Data => self.parse_data_section(i)?,
                    Section::Custom => {},
                }
                last_section_number = section.order();
            }
            proof {
                i.lemma_position();
                lemma_remaining_shrinks(*old(i), *i);
                assert(section_effect(section, src, b + 1, m_before, n_before, self.module, self.next_empty_function, i.position()));
                if hyp {
                    lemma_section_det(ts[kk], src, tb[kk] + 1, tm[kk], tn[kk], tm[kk + 1], tn[kk + 1], tb[kk + 1], m_before, self.module, self.next_empty_function, i.position());
                    assert(secs.push(section) =~= ts.take(kk + 1));
                }
                if ha {
                    lemma_section_det(sa[kk], src, ba[kk] + 1, ma[kk], na[kk], ma[kk + 1], na[kk + 1], ba[kk + 1], m_before, self.module, self.next_empty_function, i.position());
                    assert(secs.push(section) =~= sa.take(kk + 1));
                }
                if ho {
                    lemma_section_det(so[kk], src, bo[kk] + 1, mo[kk], no[kk], mo[kk + 1], no[kk + 1], bo[kk + 1], m_before, self.module, self.next_empty_function, i.position());
                    assert(secs.push(section) =~= so.take(kk + 1));
                }
                lemma_last_order_push(secs, section);
                lemma_sections_push(src, start, secs, bounds, metas, nexts, section, i.position(), self.module, self.next_empty_function);
                secs = secs.push(section);
                bounds = bounds.push(i.position());
                metas = metas.push(self.module);
                nexts = nexts.push(self.next_empty_function);
                assert(sections_prefix(src, start, secs, bounds, metas, nexts));
            }
        }
        proof {
            assert(module_sections(src, start, secs, bounds, metas, nexts));
            if hyp {
                assert(tm.last() == tm[ts.len() as int]);
                assert(self.module.functions@ == tm.last().functions@);
            }
        }
        let mut f: usize = self.next_empty_function as usize;
        while f < self.module.functions.len()
            invariant
                self.wf(),
                progressed(*old(i), *i),
                s.len() >= 8 && s.subrange(0, 4) == seq![0u8, 0x61, 0x73, 0x6D] && le_u32(s[4], s[5], s[6], s[7]) == 1,
                s == old(i).remaining(),
                s.len() == 8 ==> self.module == old(self).module && self.next_empty_function == old(
                    self,
                ).next_empty_function,
                self.next_empty_function <= f <= self.module.functions@.len(),
                i.position() >= i.source().len(),
                forall|j: int| 0 <= j < f ==> !((#[trigger] self.module.functions@[j]).source is Pending),
                hyp == module_owed(old(i).source(), old(i).position(), old(self).module, old(self).next_empty_function),
                hyp ==> meta_has_all_code(self.module),
                ha == section_misplaced(old(i).source(), old(i).position(), old(self).module, old(self).next_empty_function, true),
                ho == section_misplaced(old(i).source(), old(i).position(), old(self).module, old(self).next_empty_function, false),
                !ha && !ho,
                preamble_fail(s, 0) == 4,
                self.is_complete == old(self).is_complete,
            decreases self.module.functions.len() - f,
        {
            let func = &self.module.functions[f];
            if func.get_unparsed_mem().is_none() && func.get_import().is_none() {
                return Err(ParserError::msg("function without code"));
            }
            f = f + 1;
        }
        self.is_complete = true;
        Ok(())
    }

    /// Skips a custom section: its size, then its name and content.
    fn parse_custom_section(&mut self, i: &mut WasmBinaryReader) -> (r: Result<(), ParserError>)
        requires
            old(self).wf(),
        ensures
            progressed(*old(i), *final(i)),
            final(self).module == old(self).module,
            final(self).next_empty_function == old(self).next_empty_function,
            final(self).is_complete == old(self).is_complete,
            r is Ok ==> custom_section_effect(
                old(i).remaining(),
                old(self).module,
                final(self).module,
                final(i).position() - old(i).position(),
            ),
            section_ok(Section::Custom, old(i).source(), old(i).position(), old(self).module, old(self).next_empty_function)
                ==> r is Ok,
    {
        let ghost ok = section_ok(Section::Custom, old(i).source(), old(i).position(), old(self).module, old(self).next_empty_function);
        let ghost s = old(i).remaining();
        let ghost p = old(i).position();
        proof {
            old(i).lemma_position();
        }
        let section_size = read_u32_imm(i)?;
        let ghost size = u32_dec(s);
        proof {
            i.lemma_position();
            lemma_rest_advance(i.source(), p, size.2);
        }
        let reader_pos_safe = i.pos();
        let _name = read_name(i)?;
        let ghost name = name_dec(rest(s, size.2 as int));
        let name_byte_len = i.pos() - reader_pos_safe;
        let mut k = name_byte_len;
        while k < section_size as usize
            invariant
                progressed(*old(i), *i),
                i.position() == p + size.2 + k,
                k >= name.2,
                k <= section_size || k == name.2,
                s == old(i).remaining(),
                p == old(i).position(),
                p + size.2 + name.2 <= i.source().len(),
                i.position() <= i.source().len(),
                0 <= p <= old(i).source().len(),
                size == u32_dec(s),
                name == name_dec(rest(s, size.2 as int)),
                size.0 == LEB_OK(),
                name.0 == LEB_OK(),
                section_size == size.1,
                ok == section_ok(Section::Custom, old(i).source(), old(i).position(), old(self).module, old(self).next_empty_function),
                ok ==> p + size.2 + section_size <= i.source().len() || section_size <= name.2,
            decreases section_size as usize - k,
        {
            proof {
                i.lemma_position();
            }
            let _ = i.read_byte()?;
            k = k + 1;
        }
        proof {
            i.lemma_position();
            old(i).lemma_position();
            assert(s.len() == old(i).source().len() - p);
        }
        Ok(())
    }

    /// The type section: function types.
    #[verifier::spinoff_prover]
    #[verifier::rlimit(40)]
    fn parse_type_section(&mut self, i: &mut WasmBinaryReader) -> (r: Result<(), ParserError>)
        requires
            old(self).wf(),
        ensures
            progressed(*old(i), *final(i)),
            final(self).next_empty_function == old(self).next_empty_function,
            final(self).is_complete == old(self).is_complete,
            r is Ok ==> final(self).wf() && type_section_effect(
                old(i).remaining(),
                old(self).module,
                final(self).module,
                final(i).position() - old(i).position(),
            ),
            section_ok(Section::Type, old(i).source(), old(i).position(), old(self).module, old(self).next_empty_function)
                ==> r is Ok,
    {
        let ghost ok = section_ok(Section::Type, old(i).source(), old(i).position(), old(self).module, old(self).next_empty_function);
        let ghost s = old(i).remaining();
        let ghost p = old(i).position();
        proof {
            old(i).lemma_position();
        }
        let _ = read_u32_imm(i)?;
        let ghost size = u32_dec(s);
        proof {
            i.lemma_position();
            lemma_rest_advance(i.source(), p, size.2);
        }
        let num_types = read_u32_imm(i)?;
        let ghost count = u32_dec(rest(s, size.2 as int));
        let ghost h = size.2 + count.2;
        let ghost s2 = rest(s, h as int);
        proof {
            i.lemma_position();
            lemma_rest_advance(i.source(), p, h);
        }
        let mut parsed: Vec<FuncType> = Vec::new();
        let mut k: u32 = 0;
        while k < num_types
            invariant
                progressed(*old(i), *i),
                k <= num_types,
                s == old(i).remaining(),
                p == old(i).position(),
                s2 == rest(s, h as int),
                num_types == count.1,
                ok == section_ok(Section::Type, old(i).source(), old(i).position(), old(self).module, old(self).next_empty_function),
                ok ==> items_dec(s2, count.1 as nat, functype_item()).0 == LEB_OK(),
                items_dec(s2, k as nat, functype_item()).0 == LEB_OK(),
                parsed@.len() == items_dec(s2, k as nat, functype_item()).1.len(),
                forall|j: int| 0 <= j < parsed@.len() ==> (#[trigger] parsed@[j])@ == items_dec(s2, k as nat, functype_item()).1[j],
                i.position() == p + h + items_dec(s2, k as nat, functype_item()).2,
            decreases num_types - k,
        {
            let ghost q = items_dec(s2, k as nat, functype_item());
            proof {
                i.lemma_position();
                old(i).lemma_position();
                lemma_rest_advance(old(i).source(), p, h);
                lemma_rest_advance(old(i).source(), p + h, q.2);
                assert(i.remaining() == rest(s2, q.2 as int));
                if ok {
                    lemma_items_prefix(s2, count.1 as nat, k as nat, functype_item());
                }
            }
            let ft = read_functype(i)?;
            parsed.push(ft);
            k = k + 1;
            proof {
                let q2 = items_dec(s2, k as nat, functype_item());
                assert(q2.1 == q.1.push(ft@));
            }
        }
        let ghost t0 = self.module.function_types@;
        let ghost p0 = parsed@;
        self.module.function_types.append(&mut parsed);
        proof {
            let d = type_section_dec(s);
            assert(d.1 == items_dec(s2, count.1 as nat, functype_item()).1);
            assert forall|j: int| 0 <= j < d.1.len() implies (#[trigger] self.module.function_types@[t0.len() + j])@ == d.1[j] by {
                assert(self.module.function_types@[t0.len() + j] == p0[j]);
            }
        }
        Ok(())
    }

    /// The import section: imported functions (with a known type), tables, memories and globals
    /// are added with their import flag set; a global gets the next global index.
    #[verifier::spinoff_prover]
    #[verifier::rlimit(40)]
    fn parse_import_section(&mut self, i: &mut WasmBinaryReader) -> (r: Result<(), ParserError>)
        requires
            old(self).wf(),
        ensures
            progressed(*old(i), *final(i)),
            final(self).next_empty_function == old(self).next_empty_function,
            final(self).is_complete == old(self).is_complete,
            r is Ok ==> final(self).wf() && import_section_effect(
                old(i).remaining(),
                old(self).module,
                final(self).module,
                final(i).position() - old(i).position(),
            ),
            section_ok(Section::Import, old(i).source(), old(i).position(), old(self).module, old(self).next_empty_function)
                ==> r is Ok,
    {
        let ghost ok = section_ok(Section::Import, old(i).source(), old(i).position(), old(self).module, old(self).next_empty_function);
        let ghost s = old(i).remaining();
        let ghost p = old(i).position();
        proof {
            old(i).lemma_position();
        }
        let _ = read_u32_imm(i)?;
        let ghost size = u32_dec(s);
        proof {
            i.lemma_position();
            lemma_rest_advance(i.source(), p, size.2);
        }
        let num_imports = read_u32_imm(i)?;
        let ghost count = u32_dec(rest(s, size.2 as int));
        let ghost h = size.2 + count.2;
        let ghost s2 = rest(s, h as int);
        proof {
            i.lemma_position();
            lemma_rest_advance(i.source(), p, h);
        }
        let ghost m0 = self.module;
        let mut import_idx: u32 = 0;
        proof {
            let q = items_dec(s2, 0, import_item());
            assert(import_views(self.module.imports@) =~= import_views(m0.imports@) + recorded_imports(q.1, m0.globals@.len()));
            assert(self.module.functions@ =~= m0.functions@ + imported_functions(q.1));
            assert(self.module.tables@ =~= m0.tables@ + imported_tables(q.1));
            assert(self.module.memories@ =~= m0.memories@ + imported_memories(q.1));
            assert(self.module.globals@ =~= m0.globals@ + imported_globals(q.1));
        }
        while import_idx < num_imports
            invariant
                self.wf(),
                progressed(*old(i), *i),
                self.next_empty_function == old(self).next_empty_function,
                self.is_complete == old(self).is_complete,
                m0 == old(self).module,
                import_idx <= num_imports,
                s == old(i).remaining(),
                p == old(i).position(),
                s2 == rest(s, h as int),
                num_imports == count.1,
                ok == section_ok(Section::Import, old(i).source(), old(i).position(), old(self).module, old(self).next_empty_function),
                ok ==> items_dec(s2, count.1 as nat, import_item()).0 == LEB_OK(),
                ok ==> imports_typed(items_dec(s2, count.1 as nat, import_item()).1, m0.function_types@.len()),
                items_dec(s2, import_idx as nat, import_item()).0 == LEB_OK(),
                items_dec(s2, import_idx as nat, import_item()).1.len() == import_idx,
                i.position() == p + h + items_dec(s2, import_idx as nat, import_item()).2,
                imports_typed(items_dec(s2, import_idx as nat, import_item()).1, m0.function_types@.len()),
                same_except(
                    m0,
                    self.module,
                    set![MetaPart::Functions, MetaPart::Tables, MetaPart::Memories, MetaPart::Globals, MetaPart::Imports],
                ),
                self.module.functions@ == m0.functions@ + imported_functions(items_dec(s2, import_idx as nat, import_item()).1),
                self.module.tables@ == m0.tables@ + imported_tables(items_dec(s2, import_idx as nat, import_item()).1),
                self.module.memories@ == m0.memories@ + imported_memories(items_dec(s2, import_idx as nat, import_item()).1),
                self.module.globals@ == m0.globals@ + imported_globals(items_dec(s2, import_idx as nat, import_item()).1),
                import_views(self.module.imports@) == import_views(m0.imports@) + recorded_imports(
                    items_dec(s2, import_idx as nat, import_item()).1,
                    m0.globals@.len(),
                ),
            decreases num_imports - import_idx,
        {
            let ghost q = items_dec(s2, import_idx as nat, import_item());
            let ghost mb = self.module;
            proof {
                i.lemma_position();
                old(i).lemma_position();
                lemma_rest_advance(old(i).source(), p, h);
                lemma_rest_advance(old(i).source(), p + h, q.2);
                assert(i.remaining() == rest(s2, q.2 as int));
                if ok {
                    lemma_items_prefix(s2, count.1 as nat, import_idx as nat, import_item());
                }
            }
            let mut import = read_import(i)?;
            let ghost x = (import.module@, import.name@, import.desc);
            let ghost q2 = items_dec(s2, (import_idx + 1) as nat, import_item());
            proof {
                assert(q2.1 == q.1.push(x));
                assert(q2.1.drop_last() =~= q.1);
                assert(q2.1.last() == x);
                if ok {
                    assert(items_dec(s2, count.1 as nat, import_item()).1[import_idx as int] == x);
                }
            }
            match import.desc {
                ImportDesc::Func(type_idx) => {
                    if type_idx as usize >= self.module.function_types.len() {
                        return Err(ParserError::msg("function type index out of bounds"));
                    }
                    self.module.functions.push(
                        Function { type_idx, source: FunctionSource::Import(FunctionImport { import_idx }) },
                    );
                },
                ImportDesc::Table(ty) => {
                    self.module.tables.push(Table { ty, import: true });
                },
                ImportDesc::Mem(limits) => {
                    self.module.memories.push(Memory { limits, import: true });
                },
                ImportDesc::Global((ty, _)) => {
                    let idx = self.module.globals.len() as u32;
                    import.desc = ImportDesc::Global((ty, idx));
                    self.module.globals.push(Global { ty, import: true, init: ConstantValue::FuncPtr(import_idx) });
                },
            }
            self.module.imports.push(import);
            proof {
                assert(import_views(self.module.imports@) =~= import_views(mb.imports@).push(
                    (import.module@, import.name@, import.desc),
                ));
                assert(import_views(self.module.imports@) =~= import_views(m0.imports@) + recorded_imports(q2.1, m0.globals@.len()));
                assert(self.module.functions@ =~= m0.functions@ + imported_functions(q2.1));
                assert(self.module.tables@ =~= m0.tables@ + imported_tables(q2.1));
                assert(self.module.memories@ =~= m0.memories@ + imported_memories(q2.1));
                assert(self.module.globals@ =~= m0.globals@ + imported_globals(q2.1));
                assert forall|j: int| 0 <= j < q2.1.len() implies (#[trigger] q2.1[j].2 matches ImportDesc::Func(t) ==> t
                    < m0.function_types@.len()) by {
                    if j < q.1.len() {
                        assert(q2.1[j] == q.1[j]);
                    }
                }
                assert forall|k: int| 0 <= k < self.module.functions@.len() implies (#[trigger] self.module.functions@[k]).type_idx
                    < self.module.function_types@.len() by {
                    if k < mb.functions@.len() {
                        assert(self.module.functions@[k] == mb.functions@[k]);
                    }
                }
                assert forall|k: int| 0 <= k < self.next_empty_function implies !((#[trigger] self.module.functions@[k]).source is Pending) by {
                    assert(self.module.functions@[k] == mb.functions@[k]);
                }
            }
            import_idx = import_idx + 1;
        }
        Ok(())
    }

    /// The function section: the type of each function of the module, which must be known.
    #[verifier::spinoff_prover]
    #[verifier::rlimit(40)]
    fn parse_function_section(&mut self, i: &mut WasmBinaryReader) -> (r: Result<(), ParserError>)
        requires
            old(self).wf(),
        ensures
            progressed(*old(i), *final(i)),
            final(self).next_empty_function == old(self).next_empty_function,
            final(self).is_complete == old(self).is_complete,
            r is Ok ==> final(self).wf() && function_section_effect(
                old(i).remaining(),
                old(self).module,
                final(self).module,
                final(i).position() - old(i).position(),
            ),
            section_ok(Section::Function, old(i).source(), old(i).position(), old(self).module, old(self).next_empty_function)
                ==> r is Ok,
    {
        let ghost ok = section_ok(Section::Function, old(i).source(), old(i).position(), old(self).module, old(self).next_empty_function);
        let ghost s = old(i).remaining();
        let ghost p = old(i).position();
        proof {
            old(i).lemma_position();
        }
        let _ = read_u32_imm(i)?;
        let ghost size = u32_dec(s);
        proof {
            i.lemma_position();
            lemma_rest_advance(i.source(), p, size.2);
        }
        let num_functions = read_u32_imm(i)?;
        let ghost count = u32_dec(rest(s, size.2 as int));
        let ghost h = size.2 + count.2;
        let ghost s2 = rest(s, h as int);
        proof {
            i.lemma_position();
            lemma_rest_advance(i.source(), p, h);
        }
        if num_functions == 0 {
            return Ok(());
        }
        let mut parsed: Vec<Function> = Vec::new();
        let mut max_func_type: u32 = 0;
        let mut k: u32 = 0;
        proof {
            if ok {
                assert(vec_section(s, u32_item()).1 == items_dec(s2, count.1 as nat, u32_item()).1);
            }
        }
        while k < num_functions
            invariant
                progressed(*old(i), *i),
                k <= num_functions,
                s == old(i).remaining(),
                p == old(i).position(),
                s2 == rest(s, h as int),
                num_functions == count.1,
                ok == section_ok(Section::Function, old(i).source(), old(i).position(), old(self).module, old(self).next_empty_function),
                ok ==> items_dec(s2, count.1 as nat, u32_item()).0 == LEB_OK(),
                ok ==> forall|j: int| 0 <= j < items_dec(s2, count.1 as nat, u32_item()).1.len() ==> #[trigger] items_dec(s2, count.1 as nat, u32_item()).1[j] < old(self).module.function_types@.len(),
                ok ==> k == 0 || max_func_type < old(self).module.function_types@.len(),
                k == 0 ==> max_func_type == 0,
                self.module == old(self).module,
                items_dec(s2, k as nat, u32_item()).0 == LEB_OK(),
                parsed@.len() == items_dec(s2, k as nat, u32_item()).1.len(),
                forall|j: int|
                    0 <= j < parsed@.len() ==> #[trigger] parsed@[j] == (Function {
                        type_idx: items_dec(s2, k as nat, u32_item()).1[j],
                        source: FunctionSource::Pending,
                    }),
                forall|j: int| 0 <= j < parsed@.len() ==> (#[trigger] parsed@[j]).type_idx <= max_func_type,
                i.position() == p + h + items_dec(s2, k as nat, u32_item()).2,
            decreases num_functions - k,
        {
            let ghost q = items_dec(s2, k as nat, u32_item());
            proof {
                i.lemma_position();
                old(i).lemma_position();
                lemma_rest_advance(old(i).source(), p, h);
                lemma_rest_advance(old(i).source(), p + h, q.2);
                assert(i.remaining() == rest(s2, q.2 as int));
                if ok {
                    lemma_items_prefix(s2, count.1 as nat, k as nat, u32_item());
                }
            }
            let type_idx = read_u32_imm(i)?;
            proof {
                if ok {
                    assert(items_dec(s2, count.1 as nat, u32_item()).1[k as int] == type_idx);
                    assert(k < items_dec(s2, count.1 as nat, u32_item()).1.len());
                    assert(type_idx < old(self).module.function_types@.len());
                }
            }
            if type_idx > max_func_type {
                max_func_type = type_idx;
            }
            parsed.push(Function::new(type_idx));
            k = k + 1;
        }
        if max_func_type as usize >= self.module.function_types.len() {
            return Err(ParserError::msg("function type index out of bounds"));
        }
        let ghost f0 = self.module.functions@;
        let ghost p0 = parsed@;
        self.module.functions.append(&mut parsed);
        proof {
            let d = vec_section(s, u32_item());
            assert(d.1 == items_dec(s2, count.1 as nat, u32_item()).1);
            assert forall|k: int| 0 <= k < self.module.functions@.len() implies (#[trigger] self.module.functions@[k]).type_idx
                < self.module.function_types@.len() by {
                if k >= f0.len() {
                    assert(self.module.functions@[k] == p0[k - f0.len()]);
                } else {
                    assert(self.module.functions@[k] == f0[k]);
                }
            }
            assert forall|j: int| 0 <= j < d.1.len() implies #[trigger] d.1[j] < self.module.function_types@.len() by {
                assert(p0[j].type_idx == d.1[j]);
            }
            assert forall|j: int| 0 <= j < d.1.len() implies #[trigger] self.module.functions@[f0.len() + j] == (Function {
                type_idx: d.1[j],
                source: FunctionSource::Pending,
            }) by {
                assert(self.module.functions@[f0.len() + j] == p0[j]);
            }
        }
        Ok(())
    }

    /// The table section: tables of the module itself.
    fn parse_table_section(&mut self, i: &mut WasmBinaryReader) -> (r: Result<(), ParserError>)
        requires
            old(self).wf(),
        ensures
            progressed(*old(i), *final(i)),
            final(self).next_empty_function == old(self).next_empty_function,
            final(self).is_complete == old(self).is_complete,
            r is Ok ==> final(self).wf() && table_section_effect(
                old(i).remaining(),
                old(self).module,
                final(self).module,
                final(i).position() - old(i).position(),
            ),
            section_ok(Section::Table, old(i).source(), old(i).position(), old(self).module, old(self).next_empty_function)
                ==> r is Ok,
    {
        let ghost ok = section_ok(Section::Table, old(i).source(), old(i).position(), old(self).module, old(self).next_empty_function);
        let ghost s = old(i).remaining();
        let ghost p = old(i).position();
        proof {
            old(i).lemma_position();
        }
        let _ = read_u32_imm(i)?;
        let ghost size = u32_dec(s);
        proof {
            i.lemma_position();
            lemma_rest_advance(i.source(), p, size.2);
        }
        let num_tables = read_u32_imm(i)?;
        let ghost count = u32_dec(rest(s, size.2 as int));
        let ghost h = size.2 + count.2;
        let ghost s2 = rest(s, h as int);
        proof {
            i.lemma_position();
            lemma_rest_advance(i.source(), p, h);
        }
        let mut parsed: Vec<Table> = Vec::new();
        let mut k: u32 = 0;
        while k < num_tables
            invariant
                progressed(*old(i), *i),
                k <= num_tables,
                s == old(i).remaining(),
                p == old(i).position(),
                s2 == rest(s, h as int),
                num_tables == count.1,
                ok == section_ok(Section::Table, old(i).source(), old(i).position(), old(self).module, old(self).next_empty_function),
                ok ==> items_dec(s2, count.1 as nat, table_item()).0 == LEB_OK(),
                items_dec(s2, k as nat, table_item()).0 == LEB_OK(),
                parsed@.len() == items_dec(s2, k as nat, table_item()).1.len(),
                forall|j: int| 0 <= j < parsed@.len() ==> (#[trigger] parsed@[j]) == (Table { ty: items_dec(s2, k as nat, table_item()).1[j], import: false }),
                i.position() == p + h + items_dec(s2, k as nat, table_item()).2,
            decreases num_tables - k,
        {
            let ghost q = items_dec(s2, k as nat, table_item());
            proof {
                i.lemma_position();
                old(i).lemma_position();
                lemma_rest_advance(old(i).source(), p, h);
                lemma_rest_advance(old(i).source(), p + h, q.2);
                assert(i.remaining() == rest(s2, q.2 as int));
                if ok {
                    lemma_items_prefix(s2, count.1 as nat, k as nat, table_item());
                }
            }
            let x = read_table(i)?;
            parsed.push(x);
            k = k + 1;
        }
        let ghost t0 = self.module.tables@;
        let ghost p0 = parsed@;
        self.module.tables.append(&mut parsed);
        proof {
            let d = vec_section(s, table_item());
            assert(d.1 == items_dec(s2, count.1 as nat, table_item()).1);
            assert forall|j: int| 0 <= j < d.1.len() implies #[trigger] self.module.tables@[t0.len() + j] == (Table { ty: d.1[j], import: false }) by {
                assert(self.module.tables@[t0.len() + j] == p0[j]);
            }
        }
        Ok(())
    }

    /// The memory section: at most one memory, and none if one was imported.
    fn parse_memory_section(&mut self, i: &mut WasmBinaryReader) -> (r: Result<(), ParserError>)
        requires
            old(self).wf(),
        ensures
            progressed(*old(i), *final(i)),
            final(self).next_empty_function == old(self).next_empty_function,
            final(self).is_complete == old(self).is_complete,
            r is Ok ==> final(self).wf() && memory_section_effect(
                old(i).remaining(),
                old(self).module,
                final(self).module,
                final(i).position() - old(i).position(),
            ),
            section_ok(Section::Memory, old(i).source(), old(i).position(), old(self).module, old(self).next_empty_function)
                ==> r is Ok,
    {
        let ghost ok = section_ok(Section::Memory, old(i).source(), old(i).position(), old(self).module, old(self).next_empty_function);
        let ghost s = old(i).remaining();
        let ghost p = old(i).position();
        proof {
            old(i).lemma_position();
        }
        let _ = read_u32_imm(i)?;
        let ghost size = u32_dec(s);
        proof {
            i.lemma_position();
            lemma_rest_advance(i.source(), p, size.2);
        }
        let num_memories = read_u32_imm(i)?;
        let ghost count = u32_dec(rest(s, size.2 as int));
        let ghost h = size.2 + count.2;
        proof {
            i.lemma_position();
            lemma_rest_advance(i.source(), p, h);
        }
        if num_memories == 0 {
            return Ok(());
        }
        if num_memories > 1 || self.module.memories.len() != 0 {
            return Err(ParserError::msg("multiple memories are not supported"));
        }
        let memory = read_memory(i)?;
        let mut memories = Vec::new();
        memories.push(memory);
        self.module.memories = memories;
        proof {
            assert(self.module.memories@ =~= seq![memory]);
        }
        Ok(())
    }

    /// The global section: globals of the module itself with their initializers.
    #[verifier::spinoff_prover]
    #[verifier::rlimit(40)]
    fn parse_global_section(&mut self, i: &mut WasmBinaryReader) -> (r: Result<(), ParserError>)
        requires
            old(self).wf(),
        ensures
            progressed(*old(i), *final(i)),
            final(self).next_empty_function == old(self).next_empty_function,
            final(self).is_complete == old(self).is_complete,
            r is Ok ==> final(self).wf() && global_section_effect(
                old(i).remaining(),
                old(self).module,
                final(self).module,
                final(i).position() - old(i).position(),
            ),
            section_ok(Section::Global, old(i).source(), old(i).position(), old(self).module, old(self).next_empty_function)
                ==> r is Ok,
    {
        let ghost ok = section_ok(Section::Global, old(i).source(), old(i).position(), old(self).module, old(self).next_empty_function);
        let ghost ng = self.module.globals@.len();
        let ghost s = old(i).remaining();
        let ghost p = old(i).position();
        proof {
            old(i).lemma_position();
        }
        let _ = read_u32_imm(i)?;
        let ghost size = u32_dec(s);
        proof {
            i.lemma_position();
            lemma_rest_advance(i.source(), p, size.2);
        }
        let num_globals = read_u32_imm(i)?;
        let ghost count = u32_dec(rest(s, size.2 as int));
        let ghost h = size.2 + count.2;
        let ghost s2 = rest(s, h as int);
        proof {
            i.lemma_position();
            lemma_rest_advance(i.source(), p, h);
        }
        let mut parsed: Vec<Global> = Vec::new();
        let mut k: u32 = 0;
        while k < num_globals
            invariant
                progressed(*old(i), *i),
                k <= num_globals,
                s == old(i).remaining(),
                p == old(i).position(),
                s2 == rest(s, h as int),
                num_globals == count.1,
                ok == section_ok(Section::Global, old(i).source(), old(i).position(), old(self).module, old(self).next_empty_function),
                ok ==> items_dec(s2, count.1 as nat, global_item(ng)).0 == LEB_OK(),
                self.wf(),
                self.module == old(self).module,
                ng == self.module.globals@.len(),
                items_dec(s2, k as nat, global_item(ng)).0 == LEB_OK(),
                parsed@.len() == items_dec(s2, k as nat, global_item(ng)).1.len(),
                forall|j: int| 0 <= j < parsed@.len() ==> (#[trigger] parsed@[j]) == items_dec(s2, k as nat, global_item(ng)).1[j],
                i.position() == p + h + items_dec(s2, k as nat, global_item(ng)).2,
            decreases num_globals - k,
        {
            let ghost q = items_dec(s2, k as nat, global_item(ng));
            proof {
                i.lemma_position();
                old(i).lemma_position();
                lemma_rest_advance(old(i).source(), p, h);
                lemma_rest_advance(old(i).source(), p + h, q.2);
                assert(i.remaining() == rest(s2, q.2 as int));
                if ok {
                    lemma_items_prefix(s2, count.1 as nat, k as nat, global_item(ng));
                }
            }
            let x = read_global(i, &self.module)?;
            parsed.push(x);
            k = k + 1;
        }
        proof {
            let d = vec_section(s, global_item(ng));
            assert(d.1 == items_dec(s2, count.1 as nat, global_item(ng)).1);
            assert(parsed@ =~= d.1);
        }
        self.module.globals.append(&mut parsed);
        Ok(())
    }

    /// The export section; an exported function must exist.
    #[verifier::spinoff_prover]
    #[verifier::rlimit(40)]
    fn parse_export_section(&mut self, i: &mut WasmBinaryReader) -> (r: Result<(), ParserError>)
        requires
            old(self).wf(),
        ensures
            progressed(*old(i), *final(i)),
            final(self).next_empty_function == old(self).next_empty_function,
            final(self).is_complete == old(self).is_complete,
            r is Ok ==> final(self).wf() && export_section_effect(
                old(i).remaining(),
                old(self).module,
                final(self).module,
                final(i).position() - old(i).position(),
            ),
            final(self).module.functions == old(self).module.functions,
            section_ok(Section::Export, old(i).source(), old(i).position(), old(self).module, old(self).next_empty_function)
                ==> r is Ok,
    {
        let ghost ok = section_ok(Section::Export, old(i).source(), old(i).position(), old(self).module, old(self).next_empty_function);
        let ghost s = old(i).remaining();
        let ghost p = old(i).position();
        proof {
            old(i).lemma_position();
        }
        let export_section_len = read_u32_imm(i)?;
        let ghost size = u32_dec(s);
        proof {
            i.lemma_position();
            lemma_rest_advance(i.source(), p, size.2);
        }
        if export_section_len == 0 {
            return Ok(());
        }
        let num_exports = read_u32_imm(i)?;
        let ghost count = u32_dec(rest(s, size.2 as int));
        let ghost h = size.2 + count.2;
        let ghost s2 = rest(s, h as int);
        proof {
            i.lemma_position();
            lemma_rest_advance(i.source(), p, h);
        }
        let mut parsed_exports = WasmExports::new();
        proof {
            if ok {
                assert(vec_section(s, export_item()).1 == items_dec(s2, count.1 as nat, export_item()).1);
            }
        }
        let mut k: u32 = 0;
        proof {
            assert(desc_views(parsed_exports.functions@) =~= Seq::empty());
            assert(desc_views(parsed_exports.tables@) =~= Seq::empty());
            assert(desc_views(parsed_exports.memories@) =~= Seq::empty());
            assert(desc_views(parsed_exports.globals@) =~= Seq::empty());
        }
        while k < num_exports
            invariant
                progressed(*old(i), *i),
                self.wf(),
                self.module == old(self).module,
                self.next_empty_function == old(self).next_empty_function,
                self.is_complete == old(self).is_complete,
                k <= num_exports,
                s == old(i).remaining(),
                p == old(i).position(),
                s2 == rest(s, h as int),
                num_exports == count.1,
                ok == section_ok(Section::Export, old(i).source(), old(i).position(), old(self).module, old(self).next_empty_function),
                ok ==> items_dec(s2, count.1 as nat, export_item()).0 == LEB_OK(),
                ok ==> forall|j: int| 0 <= j < items_dec(s2, count.1 as nat, export_item()).1.len() && (#[trigger] items_dec(s2, count.1 as nat, export_item()).1[j]).0 == 0 ==> items_dec(s2, count.1 as nat, export_item()).1[j].2 < old(self).module.functions@.len(),
                items_dec(s2, k as nat, export_item()).0 == LEB_OK(),
                i.position() == p + h + items_dec(s2, k as nat, export_item()).2,
                forall|j: int|
                    0 <= j < items_dec(s2, k as nat, export_item()).1.len() && (#[trigger] items_dec(
                        s2,
                        k as nat,
                        export_item(),
                    ).1[j]).0 == 0 ==> items_dec(s2, k as nat, export_item()).1[j].2 < self.module.functions@.len(),
                desc_views(parsed_exports.functions@) == exports_of(items_dec(s2, k as nat, export_item()).1, 0),
                desc_views(parsed_exports.tables@) == exports_of(items_dec(s2, k as nat, export_item()).1, 1),
                desc_views(parsed_exports.memories@) == exports_of(items_dec(s2, k as nat, export_item()).1, 2),
                desc_views(parsed_exports.globals@) == exports_of(items_dec(s2, k as nat, export_item()).1, 3),
                forall|j: int|
                    0 <= j < parsed_exports.functions@.len() ==> (#[trigger] parsed_exports.functions@[j]).idx
                        < self.module.functions@.len(),
            decreases num_exports - k,
        {
            let ghost q = items_dec(s2, k as nat, export_item());
            proof {
                i.lemma_position();
                old(i).lemma_position();
                lemma_rest_advance(old(i).source(), p, h);
                lemma_rest_advance(old(i).source(), p + h, q.2);
                assert(i.remaining() == rest(s2, q.2 as int));
                if ok {
                    lemma_items_prefix(s2, count.1 as nat, k as nat, export_item());
                }
            }
            let ghost e0 = parsed_exports;
            let export = read_export(i)?;
            let ghost q2 = items_dec(s2, (k + 1) as nat, export_item());
            proof {
                assert(q2.1 == q.1.push(export_view(export)));
                assert(q2.1.drop_last() =~= q.1);
                if ok {
                    assert(items_dec(s2, count.1 as nat, export_item()).1[k as int] == export_view(export));
                }
            }
            match export {
                Export::Func(e) => {
                    if e.idx as usize >= self.module.functions.len() {
                        return Err(ParserError::msg("function index out of bounds"));
                    }
                    parsed_exports.add_function_export(e);
                    proof {
                        assert(desc_views(parsed_exports.functions@) =~= desc_views(e0.functions@).push((e.name@, e.idx)));
                    }
                },
                Export::Table(e) => {
                    parsed_exports.add_table_export(e);
                    proof {
                        assert(desc_views(parsed_exports.tables@) =~= desc_views(e0.tables@).push((e.name@, e.idx)));
                    }
                },
                Export::Mem(e) => {
                    parsed_exports.add_memory_export(e);
                    proof {
                        assert(desc_views(parsed_exports.memories@) =~= desc_views(e0.memories@).push((e.name@, e.idx)));
                    }
                },
                Export::Global(e) => {
                    parsed_exports.add_global_export(e);
                    proof {
                        assert(desc_views(parsed_exports.globals@) =~= desc_views(e0.globals@).push((e.name@, e.idx)));
                    }
                },
            }
            k = k + 1;
        }
        let ghost x0 = self.module.exports;
        let ghost px = parsed_exports;
        self.module.exports.append(parsed_exports);
        proof {
            let d = vec_section(s, export_item());
            assert(d.1 == items_dec(s2, count.1 as nat, export_item()).1);
            assert(desc_views(self.module.exports.functions@) =~= desc_views(x0.functions@) + desc_views(px.functions@));
            assert(desc_views(self.module.exports.tables@) =~= desc_views(x0.tables@) + desc_views(px.tables@));
            assert(desc_views(self.module.exports.memories@) =~= desc_views(x0.memories@) + desc_views(px.memories@));
            assert(desc_views(self.module.exports.globals@) =~= desc_views(x0.globals@) + desc_views(px.globals@));
            assert forall|j: int| 0 <= j < self.module.exports.functions@.len() implies (#[trigger] self.module.exports.functions@[j]).idx < self.module.functions@.len() by {
                if j >= x0.functions@.len() {
                    assert(self.module.exports.functions@[j] == px.functions@[j - x0.functions@.len()]);
                } else {
                    assert(self.module.exports.functions@[j] == x0.functions@[j]);
                }
            }
        }
        Ok(())
    }

    /// The start section: the start function, which must exist; there is at most one.
    fn parse_start_section(&mut self, i: &mut WasmBinaryReader) -> (r: Result<(), ParserError>)
        requires
            old(self).wf(),
        ensures
            progressed(*old(i), *final(i)),
            final(self).next_empty_function == old(self).next_empty_function,
            final(self).is_complete == old(self).is_complete,
            u32_dec(old(i).remaining()).0 == LEB_OK() && old(self).module.entry_point is Some ==> (r matches Err(
                ParserError::Msg(_),
            )),
            r is Ok ==> final(self).wf() && start_section_effect(
                old(i).remaining(),
                old(self).module,
                final(self).module,
                final(i).position() - old(i).position(),
            ),
            final(self).module.functions == old(self).module.functions,
            section_ok(Section::Start, old(i).source(), old(i).position(), old(self).module, old(self).next_empty_function)
                ==> r is Ok,
    {
        let ghost ok = section_ok(Section::Start, old(i).source(), old(i).position(), old(self).module, old(self).next_empty_function);
        let ghost s = old(i).remaining();
        let ghost p = old(i).position();
        proof {
            old(i).lemma_position();
        }
        let _ = read_u32_imm(i)?;
        let ghost size = u32_dec(s);
        proof {
            i.lemma_position();
            lemma_rest_advance(i.source(), p, size.2);
        }
        if self.module.entry_point.is_some() {
            return Err(ParserError::msg("multiple start sections"));
        }
        let idx = read_u32_imm(i)?;
        self.module.entry_point = Some(idx);
        if idx as usize >= self.module.functions.len() {
            return Err(ParserError::StartFunctionDoesNotExist);
        }
        Ok(())
    }

    /// The element section: element segments.
    #[verifier::spinoff_prover]
    #[verifier::rlimit(40)]
    fn parse_element_section(&mut self, i: &mut WasmBinaryReader) -> (r: Result<(), ParserError>)
        requires
            old(self).wf(),
        ensures
            progressed(*old(i), *final(i)),
            final(self).next_empty_function == old(self).next_empty_function,
            final(self).is_complete == old(self).is_complete,
            r is Ok ==> final(self).wf() && element_section_effect(
                old(i).remaining(),
                old(self).module,
                final(self).module,
                final(i).position() - old(i).position(),
            ),
            section_ok(Section::Element, old(i).source(), old(i).position(), old(self).module, old(self).next_empty_function)
                ==> r is Ok,
    {
        let ghost ok = section_ok(Section::Element, old(i).source(), old(i).position(), old(self).module, old(self).next_empty_function);
        let ghost ng = self.module.globals@.len();
        let ghost s = old(i).remaining();
        let ghost p = old(i).position();
        proof {
            old(i).lemma_position();
        }
        let _ = read_u32_imm(i)?;
        let ghost size = u32_dec(s);
        proof {
            i.lemma_position();
            lemma_rest_advance(i.source(), p, size.2);
        }
        let num_elements = read_u32_imm(i)?;
        let ghost count = u32_dec(rest(s, size.2 as int));
        let ghost h = size.2 + count.2;
        let ghost s2 = rest(s, h as int);
        proof {
            i.lemma_position();
            lemma_rest_advance(i.source(), p, h);
        }
        let mut parsed: Vec<Element> = Vec::new();
        let mut k: u32 = 0;
        while k < num_elements
            invariant
                progressed(*old(i), *i),
                k <= num_elements,
                s == old(i).remaining(),
                p == old(i).position(),
                s2 == rest(s, h as int),
                num_elements == count.1,
                ok == section_ok(Section::Element, old(i).source(), old(i).position(), old(self).module, old(self).next_empty_function),
                ok ==> items_dec(s2, count.1 as nat, element_item(ng)).0 == LEB_OK(),
                self.wf(),
                self.module == old(self).module,
                ng == self.module.globals@.len(),
                items_dec(s2, k as nat, element_item(ng)).0 == LEB_OK(),
                parsed@.len() == items_dec(s2, k as nat, element_item(ng)).1.len(),
                forall|j: int| 0 <= j < parsed@.len() ==> element_matches((#[trigger] parsed@[j]), items_dec(s2, k as nat, element_item(ng)).1[j]),
                i.position() == p + h + items_dec(s2, k as nat, element_item(ng)).2,
            decreases num_elements - k,
        {
            let ghost q = items_dec(s2, k as nat, element_item(ng));
            proof {
                i.lemma_position();
                old(i).lemma_position();
                lemma_rest_advance(old(i).source(), p, h);
                lemma_rest_advance(old(i).source(), p + h, q.2);
                assert(i.remaining() == rest(s2, q.2 as int));
                if ok {
                    lemma_items_prefix(s2, count.1 as nat, k as nat, element_item(ng));
                }
            }
            let x = read_element(i, &self.module)?;
            parsed.push(x);
            k = k + 1;
        }
        let ghost e0 = self.module.elements@;
        let ghost p0 = parsed@;
        self.module.elements.append(&mut parsed);
        proof {
            let d = vec_section(s, element_item(ng));
            assert(d.1 == items_dec(s2, count.1 as nat, element_item(ng)).1);
            assert forall|j: int| 0 <= j < d.1.len() implies element_matches(#[trigger] self.module.elements@[e0.len() + j], d.1[j]) by {
                assert(self.module.elements@[e0.len() + j] == p0[j]);
            }
        }
        Ok(())
    }

    /// The data count section: the number of data segments; there is at most one.
    fn parse_datacount_section(&mut self, i: &mut WasmBinaryReader) -> (r: Result<(), ParserError>)
        requires
            old(self).wf(),
        ensures
            progressed(*old(i), *final(i)),
            final(self).next_empty_function == old(self).next_empty_function,
            final(self).is_complete == old(self).is_complete,
            r is Ok ==> final(self).wf() && datacount_section_effect(
                old(i).remaining(),
                old(self).module,
                final(self).module,
                final(i).position() - old(i).position(),
            ),
            ({
                let size = u32_dec(old(i).remaining());
                &&& size.0 == LEB_OK() && size.1 == 0 ==> r is Ok && final(self).module == old(self).module
                &&& size.0 == LEB_OK() && size.1 != 0 && old(self).module.datacount is Some ==> (r matches Err(ParserError::Msg(_)))
            }),
            section_ok(Section::DataCount, old(i).source(), old(i).position(), old(self).module, old(self).next_empty_function)
                ==> r is Ok,
    {
        let ghost ok = section_ok(Section::DataCount, old(i).source(), old(i).position(), old(self).module, old(self).next_empty_function);
        let ghost s = old(i).remaining();
        let ghost p = old(i).position();
        proof {
            old(i).lemma_position();
        }
        let section_size = read_u32_imm(i)?;
        let ghost size = u32_dec(s);
        proof {
            i.lemma_position();
            lemma_rest_advance(i.source(), p, size.2);
        }
        if section_size == 0 {
            return Ok(());
        }
        if self.module.datacount.is_some() {
            return Err(ParserError::msg("multiple datacount sections"));
        }
        self.module.datacount = Some(read_u32_imm(i)?);
        Ok(())
    }

    /// The code section: where the body of each function of the module lies. The bodies go, in
    /// order, to the functions from `next_empty_function` on that are not imports.
    #[verifier::spinoff_prover]
    #[verifier::rlimit(40)]
    fn parse_code_section(&mut self, i: &mut WasmBinaryReader) -> (r: Result<(), ParserError>)
        requires
            old(self).wf(),
        ensures
            progressed(*old(i), *final(i)),
            final(self).is_complete == old(self).is_complete,
            r is Ok ==> final(self).wf() && code_section_effect(
                old(i).source(),
                old(i).position(),
                old(self).module,
                old(self).next_empty_function,
                final(self).module,
                final(self).next_empty_function,
                final(i).position(),
            ),
            final(self).module.functions@.len() == old(self).module.functions@.len(),
            final(self).module.function_types == old(self).module.function_types,
            ({
                let s = old(i).remaining();
                let size = u32_dec(s);
                let count = u32_dec(rest(s, size.2 as int));
                size.0 == LEB_OK() && count.0 == LEB_OK() && count.1 > old(self).module.functions@.len() ==> (r matches Err(
                    ParserError::Msg(m),
                ) && m@ == code_size_message(count.1 as nat, old(self).module.functions@.len()))
            }),
            section_ok(Section::Code, old(i).source(), old(i).position(), old(self).module, old(self).next_empty_function)
                ==> r is Ok,
    {
        let ghost ok = section_ok(Section::Code, old(i).source(), old(i).position(), old(self).module, old(self).next_empty_function);
        let ghost src = old(i).source();
        let ghost s = old(i).remaining();
        let ghost p = old(i).position();
        let ghost m0 = self.module;
        let ghost n0 = self.next_empty_function;
        proof {
            old(i).lemma_position();
        }
        let _ = read_u32_imm(i)?;
        let ghost size = u32_dec(s);
        proof {
            i.lemma_position();
            lemma_rest_advance(i.source(), p, size.2);
        }
        let num_remaining_function_defs = read_u32_imm(i)?;
        let ghost count = u32_dec(rest(s, size.2 as int));
        let ghost h = size.2 + count.2;
        let ghost c = code_bodies(src, p + h, m0.functions@, n0 as nat, count.1 as nat, n0 as nat);
        proof {
            i.lemma_position();
        }
        if num_remaining_function_defs as usize > self.module.functions.len() {
            let mut message = String::from_str("code section size ");
            append_decimal(&mut message, num_remaining_function_defs as u64);
            message.append(" larger than function count ");
            append_decimal(&mut message, self.module.functions.len() as u64);
            return Err(ParserError::Msg(message));
        }
        let mut idx: usize = self.next_empty_function as usize;
        let mut remaining = num_remaining_function_defs;
        while idx < self.module.functions.len() && remaining > 0
            invariant
                self.wf(),
                progressed(*old(i), *i),
                src == old(i).source(),
                self.is_complete == old(self).is_complete,
                self.module.functions@.len() == old(self).module.functions@.len(),
                self.module.function_types == old(self).module.function_types,
                same_except(m0, self.module, set![MetaPart::Functions]),
                ok == section_ok(Section::Code, old(i).source(), old(i).position(), old(self).module, old(self).next_empty_function),
                ok ==> c.0,
                s == old(i).remaining(),
                size == u32_dec(s),
                count == u32_dec(rest(s, size.2 as int)),
                count.1 <= old(self).module.functions@.len(),
                m0 == old(self).module,
                n0 == old(self).next_empty_function,
                self.next_empty_function <= idx <= self.module.functions@.len(),
                code_bodies(src, i.position(), self.module.functions@, idx as nat, remaining as nat, self.next_empty_function as nat) == c,
                forall|m: int|
                    self.next_empty_function <= m < idx ==> (#[trigger] self.module.functions@[m]).source is Import,
            decreases self.module.functions.len() - idx,
        {
            proof {
                i.lemma_position();
            }
            if self.module.functions[idx].get_import().is_none() {
                proof {
                    if ok {
                        assert(u32_dec(rest(src, i.position())).0 == LEB_OK());
                    }
                }
                let function_size = read_u32_imm(i)?;
                let pos = i.pos();
                if function_size as usize > usize::MAX - pos {
                    return Err(ParserError::UnexpectedEOF);
                }
                if idx >= 0xFFFF_FFFF {
                    return Err(ParserError::msg("too many functions"));
                }
                let ghost f0 = self.module.functions@;
                self.module.functions[idx].add_unparsed_mem(pos, function_size as usize);
                proof {
                    assert forall|m: int| 0 <= m < self.module.functions@.len() && m != idx implies self.module.functions@[m] == f0[m] by {}
                    assert(self.module.functions@ =~= f0.update(idx as int, (Function {
                        type_idx: f0[idx as int].type_idx,
                        source: FunctionSource::Wasm(FunctionUnparsed { offset: pos, size: function_size as usize }),
                    })));
                }
                i.advance(function_size as usize);
                self.next_empty_function = (idx + 1) as FuncIdx;
                remaining = remaining - 1;
            }
            idx = idx + 1;
        }
        Ok(())
    }

    /// The data section: data segments (`0` active in memory `0`, `1` passive, `2` active in a
    /// given memory); their number must match the data count, and the declared section size the
    /// bytes read.
    #[verifier::spinoff_prover]
    #[verifier::rlimit(40)]
    fn parse_data_section(&mut self, i: &mut WasmBinaryReader) -> (r: Result<(), ParserError>)
        requires
            old(self).wf(),
        ensures
            progressed(*old(i), *final(i)),
            final(self).next_empty_function == old(self).next_empty_function,
            final(self).is_complete == old(self).is_complete,
            r is Ok ==> final(self).wf() && data_section_effect(
                old(i).remaining(),
                old(self).module,
                final(self).module,
                final(i).position() - old(i).position(),
            ),
            old(self).module.datacount == Some(0u32) ==> r is Ok && final(self).module == old(self).module
                && final(i).position() == old(i).position(),
            section_ok(Section::Data, old(i).source(), old(i).position(), old(self).module, old(self).next_empty_function)
                ==> r is Ok,
            ({
                let s = old(i).remaining();
                let size = u32_dec(s);
                let count = u32_dec(rest(s, size.2 as int));
                let d = vec_section(s, data_item(old(self).module.globals@.len()));
                &&& old(self).module.datacount is Some && old(self).module.datacount->0 != 0 && size.0 == LEB_OK()
                    && count.0 == LEB_OK() && count.1 != old(self).module.datacount->0 ==> (r matches Err(ParserError::Msg(m)) && m@
                    == "data section size does not match datacount section value"@)
                &&& old(self).module.datacount != Some(0u32) && d.0 == LEB_OK() && (old(self).module.datacount matches Some(
                    c,
                ) ==> count.1 == c) && d.2 != size.2 + size.1 ==> (r matches Err(ParserError::Msg(m)) && m@
                    == "declared data section size does not match actual section size"@)
            }),
    {
        let ghost ok = section_ok(Section::Data, old(i).source(), old(i).position(), old(self).module, old(self).next_empty_function);
        let ghost ok2 = ({
            let s = old(i).remaining();
            let size = u32_dec(s);
            let count = u32_dec(rest(s, size.2 as int));
            let d = vec_section(s, data_item(old(self).module.globals@.len()));
            old(self).module.datacount != Some(0u32) && d.0 == LEB_OK() && (old(self).module.datacount matches Some(c)
                ==> count.1 == c)
        });
        match self.module.datacount {
            Some(c) => {
                if c == 0 {
                    return Ok(());
                }
            },
            None => {},
        }
        let ghost s = old(i).remaining();
        let ghost p = old(i).position();
        let ghost ng = self.module.globals@.len();
        let ghost d0 = self.module.datas@;
        proof {
            old(i).lemma_position();
        }
        let data_section_size = read_u32_imm(i)?;
        let ghost size = u32_dec(s);
        proof {
            i.lemma_position();
            lemma_rest_advance(i.source(), p, size.2);
        }
        let expected_reader_pos_after_section: u128 = i.pos() as u128 + data_section_size as u128;
        let num_data = read_u32_imm(i)?;
        let ghost count = u32_dec(rest(s, size.2 as int));
        let ghost h = size.2 + count.2;
        let ghost s2 = rest(s, h as int);
        proof {
            i.lemma_position();
            lemma_rest_advance(i.source(), p, h);
        }
        match self.module.datacount {
            Some(c) => {
                if num_data != c {
                    return Err(ParserError::msg("data section size does not match datacount section value"));
                }
            },
            None => {},
        }
        let mut k: u32 = 0;
        proof {
            assert(self.module.datas@.map_values(|x: Data| data_view(x)) =~= d0.map_values(|x: Data| data_view(x))
                + items_dec(s2, 0, data_item(ng)).1);
        }
        while k < num_data
            invariant
                progressed(*old(i), *i),
                self.wf(),
                self.next_empty_function == old(self).next_empty_function,
                self.is_complete == old(self).is_complete,
                same_except(old(self).module, self.module, set![MetaPart::Datas]),
                old(self).module.datacount != Some(0u32),
                ng == self.module.globals@.len(),
                d0 == old(self).module.datas@,
                k <= num_data,
                s == old(i).remaining(),
                p == old(i).position(),
                s2 == rest(s, h as int),
                num_data == count.1,
                ok == section_ok(Section::Data, old(i).source(), old(i).position(), old(self).module, old(self).next_empty_function),
                ok ==> items_dec(s2, count.1 as nat, data_item(ng)).0 == LEB_OK(),
                ok2 == ({
                    let size = u32_dec(s);
                    let count = u32_dec(rest(s, size.2 as int));
                    let d = vec_section(s, data_item(old(self).module.globals@.len()));
                    old(self).module.datacount != Some(0u32) && d.0 == LEB_OK() && (old(self).module.datacount matches Some(
                        c,
                    ) ==> count.1 == c)
                }),
                ok2 ==> items_dec(s2, count.1 as nat, data_item(ng)).0 == LEB_OK(),
                old(self).module.datacount is Some ==> count.1 == old(self).module.datacount->0,
                size == u32_dec(s),
                count == u32_dec(rest(s, size.2 as int)),
                expected_reader_pos_after_section == p + size.2 + size.1,
                ok ==> h + items_dec(s2, count.1 as nat, data_item(ng)).2 == size.2 + size.1,
                expected_reader_pos_after_section == p + size.2 + size.1,
                items_dec(s2, k as nat, data_item(ng)).0 == LEB_OK(),
                i.position() == p + h + items_dec(s2, k as nat, data_item(ng)).2,
                self.module.datas@.map_values(|x: Data| data_view(x)) == d0.map_values(|x: Data| data_view(x))
                    + items_dec(s2, k as nat, data_item(ng)).1,
            decreases num_data - k,
        {
            let ghost q = items_dec(s2, k as nat, data_item(ng));
            let ghost db = self.module.datas@;
            proof {
                i.lemma_position();
                old(i).lemma_position();
                lemma_rest_advance(old(i).source(), p, h);
                lemma_rest_advance(old(i).source(), p + h, q.2);
                assert(i.remaining() == rest(s2, q.2 as int));
                if ok || ok2 {
                    lemma_items_prefix(s2, count.1 as nat, k as nat, data_item(ng));
                }
            }
            let data = read_data_segment(i, &self.module)?;
            self.module.datas.push(data);
            proof {
                let q2 = items_dec(s2, (k + 1) as nat, data_item(ng));
                assert(q2.1 == q.1.push(data_view(data)));
                assert(self.module.datas@.map_values(|x: Data| data_view(x)) =~= db.map_values(|x: Data| data_view(x)).push(
                    data_view(data),
                ));
                assert(self.module.datas@.map_values(|x: Data| data_view(x)) =~= d0.map_values(|x: Data| data_view(x))
                    + q2.1);
            }
            k = k + 1;
        }
        if i.pos() as u128 != expected_reader_pos_after_section {
            return Err(ParserError::msg("declared data section size does not match actual section size"));
        }
        proof {
            let d = vec_section(s, data_item(ng));
            assert(d.1 == items_dec(s2, count.1 as nat, data_item(ng)).1);
        }
        Ok(())
    }
}

} // verus!
