use zkguest::ecdsa_verify::{
    after_stage, decode_ecdsa_limbs, err_code, failure_report, verdict_report, P256Error, StageAction, VerifyStage,
};
use zkguest::host_driver::{
    emulate_line, function_ranges, prove_line, reached_verdict, select_ranges, str_contains, Args,
    ArgsError, Mode, Reached, SymbolRecord,
};
use zkguest::sig_recovery::{assemble_result, decode_transactions, encode, undecodable_batch};

fn argv(items: &[&str]) -> Vec<String> {
    items.iter().map(|s| s.to_string()).collect()
}

#[test]
fn parse_emulate_and_prove_modes() {
    let a = Args::parse(argv(&["--emulate", "--input", "in.bin"])).ok().unwrap();
    assert_eq!(a.mode, Mode::Emulate);
    assert_eq!(a.input, "in.bin");
    assert_eq!(a.trace_fn, None);

    let a = Args::parse(argv(&["--prove", "--verify", "--input", "x"])).ok().unwrap();
    assert_eq!(a.mode, Mode::ProveVerify);

    let a = Args::parse(argv(&["--trace-fn", "guest::run", "--emulate", "--input", "a", "--input", "b"]))
        .ok()
        .unwrap();
    assert_eq!(a.mode, Mode::Emulate);
    assert_eq!(a.input, "b");
    assert_eq!(a.trace_fn, Some("guest::run".to_string()));

    // the value of --input is taken as it stands, even when it looks like a flag
    let a = Args::parse(argv(&["--emulate", "--input", "--prove"])).ok().unwrap();
    assert_eq!(a.input, "--prove");
}

#[test]
fn parse_refusals() {
    assert!(matches!(Args::parse(argv(&["--emulate", "--prove", "--input", "x"])), Err(ArgsError::EmulateExclusive)));
    assert!(matches!(Args::parse(argv(&["--emulate", "--verify", "--input", "x"])), Err(ArgsError::EmulateExclusive)));
    assert!(matches!(Args::parse(argv(&["--prove", "--input", "x"])), Err(ArgsError::ProveVerifyTogether)));
    assert!(matches!(Args::parse(argv(&["--verify", "--input", "x"])), Err(ArgsError::ProveVerifyTogether)));
    assert!(matches!(Args::parse(argv(&["--input", "x"])), Err(ArgsError::NoMode)));
    assert!(matches!(Args::parse(argv(&[])), Err(ArgsError::NoMode)));
    assert!(matches!(Args::parse(argv(&["--emulate"])), Err(ArgsError::MissingInput)));
    assert!(matches!(Args::parse(argv(&["--emulate", "--input"])), Err(ArgsError::MissingInputValue)));
    assert!(matches!(Args::parse(argv(&["--emulate", "--trace-fn"])), Err(ArgsError::MissingTraceFnValue)));
    match Args::parse(argv(&["--emulate", "--bogus", "--input", "x"])) {
        Err(ArgsError::UnknownArgument(a)) => assert_eq!(a, "--bogus"),
        _ => panic!("expected an unknown argument"),
    }
}

#[test]
fn substring_search() {
    assert!(str_contains("demo::target", "target"));
    assert!(str_contains("demo::target", "demo::target"));
    assert!(!str_contains("abc", "abcd"));
    assert!(!str_contains("abc", "abd"));
    assert!(str_contains("abc", ""));
    assert!(str_contains("", ""));
    assert!(str_contains("h\u{e9}llo", "\u{e9}l"));
}

fn record(is_text: bool, size: u64, address: u64, name: Option<&str>) -> SymbolRecord {
    SymbolRecord { is_text, size, address, name: name.map(|s| s.to_string()) }
}

#[test]
fn ranges_of_selected_symbols() {
    let syms = vec![
        record(true, 0x20, 0x1000, Some("guest::harness")),
        record(true, 0, 0x1100, Some("guest::harness")),
        record(false, 0x20, 0x1200, Some("guest::harness")),
        record(true, 0x10, 0x1300, None),
        record(true, 0x8, 0x1400, Some("other::harness_inner")),
        record(true, 0x8, 0x1500, Some("unrelated")),
    ];
    assert_eq!(select_ranges(&syms, "harness"), vec![(0x1000, 0x1020), (0x1400, 0x1408)]);
    assert_eq!(select_ranges(&syms, "guest::harness"), vec![(0x1000, 0x1020)]);
    assert_eq!(select_ranges(&syms, "absent"), Vec::<(u64, u64)>::new());
    // a code symbol that runs past the address space does not matter unless selected
    let mut wide = syms;
    wide.push(record(true, 0x10, u64::MAX - 4, Some("unrelated::tail")));
    assert_eq!(select_ranges(&wide, "harness"), vec![(0x1000, 0x1020), (0x1400, 0x1408)]);
}

fn push_u16(v: &mut Vec<u8>, x: u16) {
    v.extend(x.to_le_bytes());
}
fn push_u32(v: &mut Vec<u8>, x: u32) {
    v.extend(x.to_le_bytes());
}
fn push_u64(v: &mut Vec<u8>, x: u64) {
    v.extend(x.to_le_bytes());
}

/// A small 64-bit little-endian ELF image with a symbol table: two mangled
/// functions, a data object and a zero-sized function.
fn tiny_elf() -> Vec<u8> {
    let names = [
        "_ZN4demo6target17h0123456789abcdefE",
        "_ZN4demo5other17h0123456789abcdefE",
        "data_sym",
        "_ZN4demo6target5empty17h0123456789abcdefE",
    ];
    let mut strtab = vec![0u8];
    let mut offsets = Vec::new();
    for n in names {
        offsets.push(strtab.len() as u32);
        strtab.extend(n.as_bytes());
        strtab.push(0);
    }
    let shstrtab = b"\0.text\0.symtab\0.strtab\0.shstrtab\0".to_vec();
    let strtab_off = 64usize;
    let mut symtab_off = strtab_off + strtab.len();
    symtab_off = (symtab_off + 7) / 8 * 8;
    let syms: [(u32, u8, u64, u64); 4] = [
        (offsets[0], 0x12, 0x1000, 0x20),
        (offsets[1], 0x12, 0x2000, 0x10),
        (offsets[2], 0x11, 0x3000, 0x8),
        (offsets[3], 0x12, 0x1800, 0),
    ];
    let symtab_len = 24 * (syms.len() + 1);
    let shstr_off = symtab_off + symtab_len;
    let mut shoff = shstr_off + shstrtab.len();
    shoff = (shoff + 7) / 8 * 8;

    let mut elf = vec![0x7f, b'E', b'L', b'F', 2, 1, 1, 0, 0, 0, 0, 0, 0, 0, 0, 0];
    push_u16(&mut elf, 2);
    push_u16(&mut elf, 0x3E);
    push_u32(&mut elf, 1);
    push_u64(&mut elf, 0);
    push_u64(&mut elf, 0);
    push_u64(&mut elf, shoff as u64);
    push_u32(&mut elf, 0);
    push_u16(&mut elf, 64);
    push_u16(&mut elf, 0);
    push_u16(&mut elf, 0);
    push_u16(&mut elf, 64);
    push_u16(&mut elf, 5);
    push_u16(&mut elf, 4);
    assert_eq!(elf.len(), 64);
    elf.extend(&strtab);
    elf.resize(symtab_off, 0);
    elf.extend([0u8; 24]);
    for (name, info, value, size) in syms {
        push_u32(&mut elf, name);
        elf.push(info);
        elf.push(0);
        push_u16(&mut elf, 1);
        push_u64(&mut elf, value);
        push_u64(&mut elf, size);
    }
    elf.extend(&shstrtab);
    elf.resize(shoff, 0);
    // section headers: null, .text, .symtab, .strtab, .shstrtab
    let headers: [(u32, u32, u64, u64, u64, u64, u32, u32, u64, u64); 5] = [
        (0, 0, 0, 0, 0, 0, 0, 0, 0, 0),
        (1, 8, 0x6, 0x1000, 0, 0x3000, 0, 0, 16, 0),
        (7, 2, 0, 0, symtab_off as u64, symtab_len as u64, 3, 1, 8, 24),
        (15, 3, 0, 0, strtab_off as u64, strtab.len() as u64, 0, 0, 1, 0),
        (23, 3, 0, 0, shstr_off as u64, shstrtab.len() as u64, 0, 0, 1, 0),
    ];
    for (name, ty, flags, addr, off, size, link, info, align, entsize) in headers {
        push_u32(&mut elf, name);
        push_u32(&mut elf, ty);
        push_u64(&mut elf, flags);
        push_u64(&mut elf, addr);
        push_u64(&mut elf, off);
        push_u64(&mut elf, size);
        push_u32(&mut elf, link);
        push_u32(&mut elf, info);
        push_u64(&mut elf, align);
        push_u64(&mut elf, entsize);
    }
    elf
}

#[test]
fn function_ranges_of_an_elf_image() {
    let elf = tiny_elf();
    assert_eq!(function_ranges(&elf, "demo::target"), Some(vec![(0x1000, 0x1020)]));
    assert_eq!(function_ranges(&elf, "demo::"), Some(vec![(0x1000, 0x1020), (0x2000, 0x2010)]));
    assert_eq!(function_ranges(&elf, "data_sym"), Some(vec![]));
    assert_eq!(function_ranges(&elf, "h0123456789abcdef"), Some(vec![]));
    assert_eq!(function_ranges(b"not an elf image", "demo"), None);
}

#[test]
fn reach_verdicts() {
    assert_eq!(reached_verdict(&None, &vec![1]), Reached::Unknown);
    assert_eq!(reached_verdict(&Some(vec![]), &vec![1]), Reached::Unknown);
    assert_eq!(reached_verdict(&Some(vec![(10, 20)]), &vec![5, 15]), Reached::True);
    assert_eq!(reached_verdict(&Some(vec![(10, 20)]), &vec![20, 9]), Reached::False);
    assert_eq!(reached_verdict(&Some(vec![(0, 1), (30, 40)]), &vec![39]), Reached::True);
    assert_eq!(reached_verdict(&Some(vec![(10, 20)]), &vec![]), Reached::False);
}

#[test]
fn contract_lines() {
    assert_eq!(emulate_line(&[0xab, 0x01], false, Reached::True), "output=ab01|panic=false|reached=true");
    assert_eq!(emulate_line(&[], true, Reached::Unknown), "output=|panic=true|reached=unknown");
    assert_eq!(emulate_line(&[0x00, 0xff], false, Reached::False), "output=00ff|panic=false|reached=false");
    assert_eq!(prove_line(&[0x10], false, true), "output=10|panic=false|valid=true");
    assert_eq!(prove_line(&[], true, false), "output=|panic=true|valid=false");
}

#[test]
fn ecdsa_request_limbs() {
    let mut input = Vec::new();
    for i in 0..20u64 {
        input.extend((i + 1).to_le_bytes());
    }
    input.push(0xEE);
    let l = decode_ecdsa_limbs(&input).unwrap();
    assert_eq!(l.z, [1, 2, 3, 4]);
    assert_eq!(l.r, [5, 6, 7, 8]);
    assert_eq!(l.s, [9, 10, 11, 12]);
    assert_eq!(l.q, [13, 14, 15, 16, 17, 18, 19, 20]);
    assert!(decode_ecdsa_limbs(&input[..159]).is_none());
}

#[test]
fn p256_error_codes_and_stages() {
    assert_eq!(err_code(&P256Error::InvalidFqElement), 1);
    assert_eq!(err_code(&P256Error::RxMismatch), 6);
    assert_eq!(err_code(&P256Error::InvalidGlvSignWord(3)), 7);
    assert_eq!(after_stage(VerifyStage::MessageHash, Ok(())), StageAction::Next(VerifyStage::SignatureR));
    assert_eq!(after_stage(VerifyStage::PublicKey, Ok(())), StageAction::Next(VerifyStage::Signature));
    assert_eq!(after_stage(VerifyStage::Signature, Ok(())), StageAction::Report(0, 0));
    assert_eq!(after_stage(VerifyStage::Signature, Err(P256Error::RxMismatch)), StageAction::Report(1, 6));
    assert_eq!(after_stage(VerifyStage::SignatureS, Err(P256Error::InvalidFrElement)), StageAction::Report(4, 2));
    assert_eq!(after_stage(VerifyStage::PublicKey, Err(P256Error::NotOnCurve)), StageAction::Report(5, 3));
    assert_eq!(after_stage(VerifyStage::MessageHash, Err(P256Error::ROrSZero)), StageAction::Report(2, 5));
}

#[test]
fn transaction_batch_decoding() {
    let batch = vec![2, 3, 0xaa, 0xbb, 0xcc, 2, 0xdd, 0xee];
    assert_eq!(decode_transactions(&batch), Some(vec![vec![0xaa, 0xbb, 0xcc], vec![0xdd, 0xee]]));
    assert_eq!(decode_transactions(&[0]), Some(vec![]));
    assert_eq!(decode_transactions(&[5]), None);
    assert_eq!(decode_transactions(&[]), None);
}

#[test]
fn verification_summary_and_encoding() {
    let r = assemble_result(3, Some(vec![[1u8; 20]]));
    assert_eq!((r.tx_count, r.recovered_count), (3, 1));
    assert_eq!(r.signers, vec![[1u8; 20], [0u8; 20], [0u8; 20]]);
    let out = encode(&r);
    let mut want = Vec::new();
    want.extend(3u32.to_le_bytes());
    want.extend(1u32.to_le_bytes());
    want.extend(3u32.to_le_bytes());
    want.extend([1u8; 20]);
    want.extend([0u8; 40]);
    assert_eq!(out, want);

    let none = assemble_result(2, None);
    assert_eq!((none.tx_count, none.recovered_count), (2, 0));
    assert_eq!(none.signers, vec![[0u8; 20]; 2]);

    let empty = undecodable_batch();
    assert_eq!(encode(&empty), vec![0u8; 12]);
}

#[test]
fn p256_reports() {
    assert_eq!(failure_report(VerifyStage::MessageHash, P256Error::InvalidFrElement), (2, 2));
    assert_eq!(failure_report(VerifyStage::PublicKey, P256Error::QAtInfinity), (5, 4));
    assert_eq!(verdict_report(Ok(())), (0, 0));
    assert_eq!(verdict_report(Err(P256Error::RxMismatch)), (1, 6));
}

#[test]
fn template_guest_reports_input_length() {
    assert_eq!(zkguest::guest_template::harness(vec![1, 2, 3]), 3u64.to_le_bytes().to_vec());
    assert_eq!(zkguest::guest_template::harness(vec![]), vec![0u8; 8]);
}
