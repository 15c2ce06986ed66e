//! The differential-testing driver of a guest program: its command line, the
//! address ranges of the function it traces, whether the trace entered them,
//! and the single contract line it prints.
use vstd::prelude::*;
use vstd::string::*;
use object::{Object, ObjectSymbol, SymbolKind};

verus! {

// ---------------------------------------------------------------------------
// Command line
// ---------------------------------------------------------------------------

/// The two ways the driver runs a guest.
#[derive(Clone, Copy, Debug, PartialEq, Eq, Structural)]
pub enum Mode {
    Emulate,
    ProveVerify,
}

/// A parsed command line: the mode, the input file and the function to trace.
pub struct Args {
    pub mode: Mode,
    pub input: String,
    pub trace_fn: Option<String>,
}

/// Why a command line was refused.
pub enum ArgsError {
    /// `--input` was the last argument.
    MissingInputValue,
    /// `--trace-fn` was the last argument.
    MissingTraceFnValue,
    /// An argument that is not one of the five flags.
    UnknownArgument(String),
    /// `--emulate` together with `--prove` or `--verify`.
    EmulateExclusive,
    /// Only one of `--prove` and `--verify`.
    ProveVerifyTogether,
    /// None of the mode flags.
    NoMode,
    /// No `--input`.
    MissingInput,
}

/// What a command line is refused for, with the text of an unknown argument.
pub enum ArgsFault {
    MissingInputValue,
    MissingTraceFnValue,
    UnknownArgument(Seq<char>),
    EmulateExclusive,
    ProveVerifyTogether,
    NoMode,
    MissingInput,
}

/// The fault that an error reports.
pub open spec fn fault_of(e: ArgsError) -> ArgsFault {
    match e {
        ArgsError::MissingInputValue => ArgsFault::MissingInputValue,
        ArgsError::MissingTraceFnValue => ArgsFault::MissingTraceFnValue,
        ArgsError::UnknownArgument(a) => ArgsFault::UnknownArgument(a@),
        ArgsError::EmulateExclusive => ArgsFault::EmulateExclusive,
        ArgsError::ProveVerifyTogether => ArgsFault::ProveVerifyTogether,
        ArgsError::NoMode => ArgsFault::NoMode,
        ArgsError::MissingInput => ArgsFault::MissingInput,
    }
}

/// What the arguments seen so far have set.
pub struct ArgScan {
    pub emulate: bool,
    pub prove: bool,
    pub verify: bool,
    pub input: Option<Seq<char>>,
    pub trace_fn: Option<Seq<char>>,
}

/// A command line as text: its mode, input path and traced function.
pub struct ParsedArgs {
    pub mode: Mode,
    pub input: Seq<char>,
    pub trace_fn: Option<Seq<char>>,
}

pub open spec fn opt_view(o: Option<String>) -> Option<Seq<char>> {
    match o {
        Some(s) => Some(s@),
        None => None,
    }
}

pub open spec fn strings_view(v: Seq<String>) -> Seq<Seq<char>> {
    v.map_values(|s: String| s@)
}

pub open spec fn initial_scan() -> ArgScan {
    ArgScan { emulate: false, prove: false, verify: false, input: None, trace_fn: None }
}

/// Reads the arguments left to right: a flag sets its switch, `--input` and
/// `--trace-fn` take the next argument as their value (a later one replaces an
/// earlier one), and anything else stops the scan.
pub open spec fn scan(argv: Seq<Seq<char>>, st: ArgScan) -> Result<ArgScan, ArgsFault>
    decreases argv.len(),
{
    if argv.len() == 0 {
        Ok(st)
    } else {
        let a = argv[0];
        let rest = argv.drop_first();
        if a == "--emulate"@ {
            scan(rest, ArgScan { emulate: true, ..st })
        } else if a == "--prove"@ {
            scan(rest, ArgScan { prove: true, ..st })
        } else if a == "--verify"@ {
            scan(rest, ArgScan { verify: true, ..st })
        } else if a == "--input"@ {
            if rest.len() == 0 {
                Err(ArgsFault::MissingInputValue)
            } else {
                scan(rest.drop_first(), ArgScan { input: Some(rest[0]), ..st })
            }
        } else if a == "--trace-fn"@ {
            if rest.len() == 0 {
                Err(ArgsFault::MissingTraceFnValue)
            } else {
                scan(rest.drop_first(), ArgScan { trace_fn: Some(rest[0]), ..st })
            }
        } else {
            Err(ArgsFault::UnknownArgument(a))
        }
    }
}

/// The mode that the switches select: `--emulate` alone, or `--prove` with
/// `--verify`; the mode is settled before the input is asked for.
pub open spec fn decide(st: ArgScan) -> Result<ParsedArgs, ArgsFault> {
    let mode = if st.emulate && !st.prove && !st.verify {
        Ok(Mode::Emulate)
    } else if !st.emulate && st.prove && st.verify {
        Ok(Mode::ProveVerify)
    } else if st.emulate {
        Err(ArgsFault::EmulateExclusive)
    } else if st.prove || st.verify {
        Err(ArgsFault::ProveVerifyTogether)
    } else {
        Err(ArgsFault::NoMode)
    };
    match mode {
        Err(f) => Err(f),
        Ok(m) => match st.input {
            None => Err(ArgsFault::MissingInput),
            Some(p) => Ok(ParsedArgs { mode: m, input: p, trace_fn: st.trace_fn }),
        },
    }
}

/// The meaning of a command line.
pub open spec fn spec_parse(argv: Seq<Seq<char>>) -> Result<ParsedArgs, ArgsFault> {
    match scan(argv, initial_scan()) {
        Err(f) => Err(f),
        Ok(st) => decide(st),
    }
}

/// One step of the scan on a non-empty list, unfolded.
proof fn lemma_scan_step(argv: Seq<Seq<char>>, st: ArgScan)
    requires
        argv.len() > 0,
    ensures
        scan(argv, st) == ({
            let a = argv[0];
            let rest = argv.drop_first();
            if a == "--emulate"@ {
                scan(rest, ArgScan { emulate: true, ..st })
            } else if a == "--prove"@ {
                scan(rest, ArgScan { prove: true, ..st })
            } else if a == "--verify"@ {
                scan(rest, ArgScan { verify: true, ..st })
            } else if a == "--input"@ {
                if rest.len() == 0 {
                    Err(ArgsFault::MissingInputValue)
                } else {
                    scan(rest.drop_first(), ArgScan { input: Some(rest[0]), ..st })
                }
            } else if a == "--trace-fn"@ {
                if rest.len() == 0 {
                    Err(ArgsFault::MissingTraceFnValue)
                } else {
                    scan(rest.drop_first(), ArgScan { trace_fn: Some(rest[0]), ..st })
                }
            } else {
                Err(ArgsFault::UnknownArgument(a))
            }
        }),
{
}

impl Args {
    /// Parses the arguments that follow the program name, as `spec_parse`
    /// reads them.
    pub fn parse(argv: Vec<String>) -> (r: Result<Args, ArgsError>)
        ensures
            match r {
                Ok(a) => spec_parse(strings_view(argv@)) == Ok::<ParsedArgs, ArgsFault>(
                    ParsedArgs { mode: a.mode, input: a.input@, trace_fn: opt_view(a.trace_fn) },
                ),
                Err(e) => spec_parse(strings_view(argv@)) == Err::<ParsedArgs, ArgsFault>(fault_of(e)),
            },
    {
        let ghost full = strings_view(argv@);
        let f_emulate = String::from_str("--emulate");
        let f_prove = String::from_str("--prove");
        let f_verify = String::from_str("--verify");
        let f_input = String::from_str("--input");
        let f_trace = String::from_str("--trace-fn");
        let mut emulate = false;
        let mut prove = false;
        let mut verify = false;
        let mut input: Option<String> = None;
        let mut trace_fn: Option<String> = None;
        let mut i: usize = 0;
        assert(full.subrange(0, full.len() as int) =~= full);
        while i < argv.len()
            invariant
                i <= argv@.len(),
                full == strings_view(argv@),
                f_emulate@ == "--emulate"@,
                f_prove@ == "--prove"@,
                f_verify@ == "--verify"@,
                f_input@ == "--input"@,
                f_trace@ == "--trace-fn"@,
                scan(full, initial_scan()) == scan(
                    full.subrange(i as int, full.len() as int),
                    ArgScan { emulate, prove, verify, input: opt_view(input), trace_fn: opt_view(trace_fn) },
                ),
            decreases argv@.len() - i,
        {
            let ghost rest_here = full.subrange(i as int, full.len() as int);
            let ghost st = ArgScan { emulate, prove, verify, input: opt_view(input), trace_fn: opt_view(trace_fn) };
            proof {
                lemma_scan_step(rest_here, st);
                assert(rest_here[0] == argv@[i as int]@);
                assert(rest_here.drop_first() =~= full.subrange(i + 1, full.len() as int));
            }
            let arg = &argv[i];
            if *arg == f_emulate {
                emulate = true;
                i = i + 1;
            } else if *arg == f_prove {
                prove = true;
                i = i + 1;
            } else if *arg == f_verify {
                verify = true;
                i = i + 1;
            } else if *arg == f_input {
                if i + 1 < argv.len() {
                    input = Some(argv[i + 1].clone());
                    proof {
                        assert(full.subrange(i + 1, full.len() as int)[0] == argv@[i + 1]@);
                        assert(full.subrange(i + 1, full.len() as int).drop_first()
                            =~= full.subrange(i + 2, full.len() as int));
                    }
                    i = i + 2;
                } else {
                    return Err(ArgsError::MissingInputValue);
                }
            } else if *arg == f_trace {
                if i + 1 < argv.len() {
                    trace_fn = Some(argv[i + 1].clone());
                    proof {
                        assert(full.subrange(i + 1, full.len() as int)[0] == argv@[i + 1]@);
                        assert(full.subrange(i + 1, full.len() as int).drop_first()
                            =~= full.subrange(i + 2, full.len() as int));
                    }
                    i = i + 2;
                } else {
                    return Err(ArgsError::MissingTraceFnValue);
                }
            } else {
                return Err(ArgsError::UnknownArgument(arg.clone()));
            }
        }
        proof {
            assert(full.subrange(i as int, full.len() as int) =~= Seq::<Seq<char>>::empty());
        }
        let mode = if emulate && !prove && !verify {
            Mode::Emulate
        } else if !emulate && prove && verify {
            Mode::ProveVerify
        } else if emulate {
            return Err(ArgsError::EmulateExclusive);
        } else if prove || verify {
            return Err(ArgsError::ProveVerifyTogether);
        } else {
            return Err(ArgsError::NoMode);
        };
        match input {
            None => Err(ArgsError::MissingInput),
            Some(p) => Ok(Args { mode, input: p, trace_fn }),
        }
    }
}

// ---------------------------------------------------------------------------
// Traced function: address ranges and whether the trace entered them
// ---------------------------------------------------------------------------

/// What the driver reads of one symbol of the guest's ELF image: whether it is
/// a code symbol, its size and address, and its raw name (`None` where the name
/// is not valid UTF-8).
pub struct SymbolRecord {
    pub is_text: bool,
    pub size: u64,
    pub address: u64,
    pub name: Option<String>,
}

/// The symbols of an ELF image in table order, or `None` where the image does
/// not parse.
pub uninterp spec fn elf_symbol_table(elf: Seq<u8>) -> Option<Seq<SymbolRecord>>;

/// The demangled path of a raw symbol name, without its hash suffix.
pub uninterp spec fn demangled_path(raw: Seq<char>) -> Seq<char>;

/// Calls `object::File::parse` and reads `kind`, `size`, `address` and `name`
/// of each symbol that `Object::symbols` yields. Trusted: the result is a
/// function of the image alone, `None` exactly where parsing fails.
#[verifier::external_body]
fn read_elf_symbols(elf: &[u8]) -> (r: Option<Vec<SymbolRecord>>)
    ensures
        match r {
            Some(v) => elf_symbol_table(elf@) == Some(v@),
            None => elf_symbol_table(elf@) is None,
        },
{
    let file = object::File::parse(elf).ok()?;
    Some(file.symbols().map(|sym| SymbolRecord {
        is_text: matches!(sym.kind(), SymbolKind::Text),
        size: sym.size(),
        address: sym.address(),
        name: sym.name().ok().map(String::from),
    }).collect())
}

/// Calls `rustc_demangle::demangle` and formats it with `{:#}`. Trusted: the
/// text is a function of `raw` alone.
#[verifier::external_body]
fn demangle_path(raw: &str) -> (d: String)
    ensures
        d@ == demangled_path(raw@),
{
    format!("{:#}", rustc_demangle::demangle(raw))
}

/// `needle` occurs in `hay` at some position.
pub open spec fn seq_contains(hay: Seq<char>, needle: Seq<char>) -> bool {
    exists|i: int| 0 <= i && i + needle.len() <= hay.len()
        && #[trigger] hay.subrange(i, i + needle.len()) == needle
}

/// A demangled path names the traced function: it equals or contains it.
pub open spec fn path_matches(demangled: Seq<char>, fn_path: Seq<char>) -> bool {
    demangled == fn_path || seq_contains(demangled, fn_path)
}

/// Whether `needle` occurs in `hay`.
pub fn str_contains(hay: &str, needle: &str) -> (r: bool)
    ensures
        r == seq_contains(hay@, needle@),
{
    let n = hay.unicode_len();
    let m = needle.unicode_len();
    if m > n {
        proof {
            assert forall|i: int| !(0 <= i && i + needle@.len() <= hay@.len()
                && #[trigger] hay@.subrange(i, i + needle@.len()) == needle@) by {}
        }
        return false;
    }
    let mut i: usize = 0;
    while i <= n - m
        invariant
            n == hay@.len(),
            m == needle@.len(),
            m <= n,
            i <= n - m + 1,
            forall|k: int| 0 <= k < i ==> #[trigger] hay@.subrange(k, k + m) != needle@,
        decreases n - m + 1 - i,
    {
        let mut j: usize = 0;
        let mut same = true;
        while j < m
            invariant
                n == hay@.len(),
                m == needle@.len(),
                i + m <= n,
                j <= m,
                same == forall|t: int| 0 <= t < j ==> hay@[i + t] == needle@[t],
            decreases m - j,
        {
            if hay.get_char(i + j) != needle.get_char(j) {
                same = false;
            }
            j = j + 1;
        }
        if same {
            assert(hay@.subrange(i as int, i + m) =~= needle@);
            return true;
        }
        assert(hay@.subrange(i as int, i + m)[0] == hay@[i as int]) by {
            if m > 0 {}
        };
        proof {
            let t = choose|t: int| 0 <= t < m && hay@[i + t] != needle@[t];
            assert(hay@.subrange(i as int, i + m)[t] != needle@[t]);
        }
        i = i + 1;
    }
    proof {
        assert forall|k: int| !(0 <= k && k + needle@.len() <= hay@.len()
            && #[trigger] hay@.subrange(k, k + needle@.len()) == needle@) by {
            if 0 <= k && k + m <= n {
                assert(k < i);
            }
        }
    }
    false
}

/// A symbol is one of the traced function's: a code symbol of nonzero size
/// whose name demangles to a path that matches.
pub open spec fn symbol_selected(s: SymbolRecord, fn_path: Seq<char>) -> bool {
    &&& s.is_text
    &&& s.size != 0
    &&& s.name matches Some(n) && path_matches(demangled_path(n@), fn_path)
}

/// The symbols selected for `fn_path` end within the address space.
pub open spec fn ranges_fit(syms: Seq<SymbolRecord>, fn_path: Seq<char>) -> bool {
    forall|i: int| 0 <= i < syms.len() && symbol_selected(#[trigger] syms[i], fn_path)
        ==> syms[i].address + syms[i].size <= u64::MAX
}

/// Whether a symbol is one of the traced function's.
fn symbol_matches(s: &SymbolRecord, fn_path: &str) -> (hit: bool)
    ensures
        hit == symbol_selected(*s, fn_path@),
{
    if s.is_text && s.size != 0 {
        match &s.name {
            Some(raw) => {
                let d = demangle_path(raw.as_str());
                let path = String::from_str(fn_path);
                d == path || str_contains(d.as_str(), fn_path)
            },
            None => false,
        }
    } else {
        false
    }
}

/// The range `[address, address + size)` of each selected symbol, in table order.
pub open spec fn spec_select_ranges(syms: Seq<SymbolRecord>, fn_path: Seq<char>) -> Seq<(u64, u64)>
    decreases syms.len(),
{
    if syms.len() == 0 {
        seq![]
    } else {
        let rest = spec_select_ranges(syms.drop_last(), fn_path);
        let s = syms.last();
        if symbol_selected(s, fn_path) {
            rest.push((s.address, (s.address + s.size) as u64))
        } else {
            rest
        }
    }
}

/// The address ranges of the symbols of the traced function `fn_path`.
pub fn select_ranges(syms: &Vec<SymbolRecord>, fn_path: &str) -> (r: Vec<(u64, u64)>)
    requires
        ranges_fit(syms@, fn_path@),
    ensures
        r@ == spec_select_ranges(syms@, fn_path@),
{
    let mut out: Vec<(u64, u64)> = Vec::new();
    let mut i: usize = 0;
    while i < syms.len()
        invariant
            i <= syms@.len(),
            ranges_fit(syms@, fn_path@),
            out@ == spec_select_ranges(syms@.subrange(0, i as int), fn_path@),
        decreases syms@.len() - i,
    {
        let s = &syms[i];
        proof {
            assert(syms@.subrange(0, i + 1).drop_last() =~= syms@.subrange(0, i as int));
            assert(syms@.subrange(0, i + 1).last() == syms@[i as int]);
        }
        if symbol_matches(s, fn_path) {
            assert(syms@[i as int].address + syms@[i as int].size <= u64::MAX);
            out.push((s.address, s.address + s.size));
        }
        i = i + 1;
    }
    assert(syms@.subrange(0, syms@.len() as int) =~= syms@);
    out
}

/// What `function_ranges` yields for an image: the ranges of the traced
/// function, or nothing where the image does not parse or one of the traced
/// function's symbols runs past the end of the address space.
pub open spec fn spec_function_ranges(elf: Seq<u8>, fn_path: Seq<char>) -> Option<Seq<(u64, u64)>> {
    match elf_symbol_table(elf) {
        None => None,
        Some(t) => if ranges_fit(t, fn_path) {
            Some(spec_select_ranges(t, fn_path))
        } else {
            None
        },
    }
}

/// The address ranges of every code symbol of the image whose demangled path
/// equals or contains `fn_path`.
pub fn function_ranges(elf: &[u8], fn_path: &str) -> (r: Option<Vec<(u64, u64)>>)
    ensures
        match r {
            Some(v) => spec_function_ranges(elf@, fn_path@) == Some(v@),
            None => spec_function_ranges(elf@, fn_path@) is None,
        },
{
    let syms = match read_elf_symbols(elf) {
        Some(s) => s,
        None => return None,
    };
    let mut i: usize = 0;
    while i < syms.len()
        invariant
            i <= syms@.len(),
            elf_symbol_table(elf@) == Some(syms@),
            forall|k: int| 0 <= k < i && symbol_selected(#[trigger] syms@[k], fn_path@)
                ==> syms@[k].address + syms@[k].size <= u64::MAX,
        decreases syms@.len() - i,
    {
        let s = &syms[i];
        if s.address > u64::MAX - s.size && symbol_matches(s, fn_path) {
            proof {
                let t = syms@;
                assert(symbol_selected(t[i as int], fn_path@)
                    && t[i as int].address + t[i as int].size > u64::MAX);
                assert(!ranges_fit(t, fn_path@));
            }
            return None;
        }
        i = i + 1;
    }
    Some(select_ranges(&syms, fn_path))
}

/// Whether the trace entered the traced function.
#[derive(Clone, Copy, Debug, PartialEq, Eq, Structural)]
pub enum Reached {
    True,
    False,
    Unknown,
}

/// Some traced program counter lies in some range.
pub open spec fn trace_hits(ranges: Seq<(u64, u64)>, pcs: Seq<u64>) -> bool {
    exists|p: int, q: int| 0 <= p < pcs.len() && 0 <= q < ranges.len()
        && ranges[q].0 <= #[trigger] pcs[p] && pcs[p] < (#[trigger] ranges[q]).1
}

/// `Unknown` where no range was resolved; otherwise `True` exactly when some
/// traced program counter lies in some range.
pub open spec fn spec_reached(ranges: Option<Seq<(u64, u64)>>, pcs: Seq<u64>) -> Reached {
    match ranges {
        None => Reached::Unknown,
        Some(r) => if r.len() == 0 {
            Reached::Unknown
        } else if trace_hits(r, pcs) {
            Reached::True
        } else {
            Reached::False
        },
    }
}

/// The verdict is never `True` unconfirmed: `True` means some traced program
/// counter lies in a resolved range, and with no resolved range it is `Unknown`.
pub proof fn law_true_only_when_entered(ranges: Option<Seq<(u64, u64)>>, pcs: Seq<u64>)
    ensures
        spec_reached(ranges, pcs) == Reached::True ==> (ranges matches Some(r) && exists|p: int, q: int|
            0 <= p < pcs.len() && 0 <= q < r.len() && r[q].0 <= #[trigger] pcs[p] && pcs[p] < (
            #[trigger] r[q]).1),
        (ranges is None || (ranges matches Some(r) && r.len() == 0)) ==> spec_reached(ranges, pcs)
            == Reached::Unknown,
{
}

/// Decides whether the trace whose program counters are `pcs` entered the
/// resolved `ranges`; it never answers `True` unconfirmed.
pub fn reached_verdict(ranges: &Option<Vec<(u64, u64)>>, pcs: &Vec<u64>) -> (v: Reached)
    ensures
        v == spec_reached(
            match ranges {
                Some(r) => Some(r@),
                None => None,
            },
            pcs@,
        ),
{
    let r = match ranges {
        None => return Reached::Unknown,
        Some(r) => r,
    };
    if r.len() == 0 {
        return Reached::Unknown;
    }
    let mut p: usize = 0;
    while p < pcs.len()
        invariant
            p <= pcs@.len(),
            *ranges == Some(*r),
            r@.len() > 0,
            forall|a: int, b: int| 0 <= a < p && 0 <= b < r@.len()
                ==> !(r@[b].0 <= #[trigger] pcs@[a] && pcs@[a] < (#[trigger] r@[b]).1),
        decreases pcs@.len() - p,
    {
        let pc = pcs[p];
        let mut q: usize = 0;
        while q < r.len()
            invariant
                p < pcs@.len(),
                *ranges == Some(*r),
                r@.len() > 0,
                pc == pcs@[p as int],
                q <= r@.len(),
                forall|a: int, b: int| 0 <= a < p && 0 <= b < r@.len()
                    ==> !(r@[b].0 <= #[trigger] pcs@[a] && pcs@[a] < (#[trigger] r@[b]).1),
                forall|b: int| 0 <= b < q ==> !(r@[b].0 <= pc && pc < (#[trigger] r@[b]).1),
            decreases r@.len() - q,
        {
            let (start, end) = r[q];
            if pc >= start && pc < end {
                assert(r@[q as int].0 <= pcs@[p as int] && pcs@[p as int] < r@[q as int].1);
                assert(trace_hits(r@, pcs@));
                return Reached::True;
            }
            q = q + 1;
        }
        p = p + 1;
    }
    Reached::False
}

// ---------------------------------------------------------------------------
// Contract line
// ---------------------------------------------------------------------------

/// The lowercase hexadecimal digit of a value below 16.
pub open spec fn hex_digit(n: int) -> char {
    if n < 10 {
        (48 + n) as char
    } else {
        (87 + n) as char
    }
}

/// Lowercase hexadecimal text of a byte string, high nibble first.
pub open spec fn hex_lower(s: Seq<u8>) -> Seq<char>
    decreases s.len(),
{
    if s.len() == 0 {
        seq![]
    } else {
        hex_lower(s.drop_last()) + seq![hex_digit(s.last() as int / 16), hex_digit(s.last() as int % 16)]
    }
}

/// Calls `hex::encode`. Trusted: two lowercase hexadecimal digits per byte,
/// high nibble first, as the crate documents and its digit table shows.
#[verifier::external_body]
fn hex_encode(data: &[u8]) -> (h: String)
    ensures
        h@ == hex_lower(data@),
{
    hex::encode(data)
}

/// `true` or `false`, as a `bool` prints.
pub open spec fn bool_text(b: bool) -> Seq<char> {
    if b {
        "true"@
    } else {
        "false"@
    }
}

/// The word for a reach verdict.
pub open spec fn reached_text(r: Reached) -> Seq<char> {
    match r {
        Reached::True => "true"@,
        Reached::False => "false"@,
        Reached::Unknown => "unknown"@,
    }
}

fn append_bool(line: &mut String, b: bool)
    ensures
        final(line)@ == old(line)@ + bool_text(b),
{
    if b {
        line.append("true");
    } else {
        line.append("false");
    }
}

/// The line an emulation prints: `output=<hex>|panic=<bool>|reached=<verdict>`.
pub fn emulate_line(output: &[u8], panic: bool, reached: Reached) -> (line: String)
    ensures
        line@ == "output="@ + hex_lower(output@) + "|panic="@ + bool_text(panic) + "|reached="@
            + reached_text(reached),
{
    let mut line = String::from_str("output=");
    let h = hex_encode(output);
    line.append(h.as_str());
    line.append("|panic=");
    append_bool(&mut line, panic);
    line.append("|reached=");
    match reached {
        Reached::True => line.append("true"),
        Reached::False => line.append("false"),
        Reached::Unknown => line.append("unknown"),
    }
    line
}

/// The line a proof and its verification print:
/// `output=<hex>|panic=<bool>|valid=<bool>`.
pub fn prove_line(output: &[u8], panic: bool, valid: bool) -> (line: String)
    ensures
        line@ == "output="@ + hex_lower(output@) + "|panic="@ + bool_text(panic) + "|valid="@
            + bool_text(valid),
{
    let mut line = String::from_str("output=");
    let h = hex_encode(output);
    line.append(h.as_str());
    line.append("|panic=");
    append_bool(&mut line, panic);
    line.append("|valid=");
    append_bool(&mut line, valid);
    line
}

} // verus!
