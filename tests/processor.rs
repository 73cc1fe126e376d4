use foot_guy::chunk_processor::ChunkProcessor;
use foot_guy::writers::in_mem::MemWriter;
use foot_guy::writers::Writer;

fn run_chunks(chunks: &[&[u8]]) -> Vec<u8> {
    let mut p = ChunkProcessor::new(MemWriter::new());
    for c in chunks {
        p.write(Some(c.to_vec()));
    }
    p.write(None);
    assert!(p.main_writer().is_ended());
    p.main_writer().bytes().clone()
}

fn run_whole(input: &[u8]) -> Vec<u8> {
    run_chunks(&[input])
}

#[test]
fn scenario_hello_world() {
    assert_eq!(run_whole(b"Hello(world)#"), b"Hello^1\n\nFN-1:world\n\n".to_vec());
}

#[test]
fn scenario_two_footnotes() {
    assert_eq!(run_whole(b"A(x)(y)#"), b"A^1^2\n\nFN-1:x\n\n\nFN-2:y\n\n".to_vec());
}

#[test]
fn scenario_plain_text() {
    assert_eq!(run_whole(b"Plain text only"), b"Plain text only".to_vec());
}

#[test]
fn scenario_end_of_stream_dumps_queue() {
    let out = run_whole(b"(note)");
    assert!(out.ends_with(b"\n\nFN-1:note\n\n"));
    assert_eq!(out, b"^1\n\nFN-1:note\n\n".to_vec());
}

#[test]
fn chunk_boundaries_do_not_matter() {
    let inputs: [&[u8]; 6] = [
        b"Hello(world)#",
        b"A(x)(y)# and (more) text ) here #tail",
        b"(a(b)c)#x",
        b"ab)cd(ef#g)h#",
        b"()(())x(y",
        b"Plain text only",
    ];
    for input in inputs.iter() {
        let whole = run_whole(input);
        for cut in 0..=input.len() {
            let (a, b) = input.split_at(cut);
            assert_eq!(run_chunks(&[a, b]), whole);
        }
        let bytes: Vec<&[u8]> = input.chunks(1).collect();
        assert_eq!(run_chunks(&bytes), whole);
        let threes: Vec<&[u8]> = input.chunks(3).collect();
        assert_eq!(run_chunks(&threes), whole);
    }
}

#[test]
fn numbers_continue_across_dumps() {
    assert_eq!(
        run_whole(b"a(x)#b(y)#"),
        b"a^1\n\nFN-1:x\n\nb^2\n\nFN-2:y\n\n".to_vec()
    );
}

#[test]
fn numbers_grow_past_one_digit() {
    let mut input: Vec<u8> = Vec::new();
    for _ in 0..12 {
        input.extend_from_slice(b"(n)");
    }
    let out = run_whole(&input);
    let text = String::from_utf8(out).unwrap();
    assert!(text.starts_with("^1^2^3^4^5^6^7^8^9^10^11^12\n"));
    assert!(text.contains("\nFN-10:n\n\n\nFN-11:n\n\n\nFN-12:n\n\n"));
}

#[test]
fn plain_bytes_pass_through_unchanged() {
    let input: Vec<u8> = (0u8..=255).filter(|b| *b != b'(' && *b != b')' && *b != b'#').collect();
    assert_eq!(run_whole(&input), input);
}

#[test]
fn empty_footnote_leaves_no_trace() {
    assert_eq!(run_whole(b"a()b"), b"ab".to_vec());
    assert_eq!(run_whole(b"a()b(c)"), b"ab^1\n\nFN-1:c\n\n".to_vec());
}

#[test]
fn dump_follows_closing_order() {
    assert_eq!(
        run_whole(b"(a)(b)(c)#"),
        b"^1^2^3\n\nFN-1:a\n\n\nFN-2:b\n\n\nFN-3:c\n\n".to_vec()
    );
}

#[test]
fn unmatched_close_is_plain_text() {
    assert_eq!(run_whole(b"a)b"), b"a)b".to_vec());
    assert_eq!(run_chunks(&[b"a", b")b"]), b"a)b".to_vec());
}

#[test]
fn nested_footnotes_are_flattened() {
    assert_eq!(
        run_whole(b"(a(b)c)#"),
        b"a^1^2\n\nFN-1:b\n\n\nFN-2:c\n\n".to_vec()
    );
}

#[test]
fn unterminated_footnote_is_dropped() {
    assert_eq!(run_whole(b"x(abc"), b"x".to_vec());
}

#[test]
fn pound_inside_footnote_is_body_text() {
    assert_eq!(run_whole(b"(a#b)#"), b"^1\n\nFN-1:a#b\n\n".to_vec());
}

#[test]
fn pound_with_empty_queue_writes_newline() {
    assert_eq!(run_whole(b"a#b"), b"a\nb".to_vec());
}

#[test]
fn append_stored_footers_dumps_queue() {
    let mut p = ChunkProcessor::new(MemWriter::new());
    p.process_bytes(b"t(one)(two)".to_vec());
    p.append_stored_footers();
    assert_eq!(
        p.main_writer().bytes().clone(),
        b"t^1^2\n\nFN-1:one\n\n\nFN-2:two\n\n".to_vec()
    );
    p.append_stored_footers();
    assert_eq!(
        p.main_writer().bytes().clone(),
        b"t^1^2\n\nFN-1:one\n\n\nFN-2:two\n\n\n".to_vec()
    );
}

#[test]
fn text_before_open_marker_is_written_at_once() {
    let mut p = ChunkProcessor::new(MemWriter::new());
    p.process_bytes(b"ab(cd".to_vec());
    assert_eq!(p.main_writer().bytes().clone(), b"ab".to_vec());
    p.process_bytes(b"e)f".to_vec());
    assert_eq!(p.main_writer().bytes().clone(), b"ab^1f".to_vec());
}

#[test]
fn mem_writer_appends_and_ends() {
    let mut w = MemWriter::new();
    assert!(!w.is_ended());
    w.write(Some(b"ab".to_vec()));
    w.write(Some(b"cd".to_vec()));
    assert_eq!(w.bytes().clone(), b"abcd".to_vec());
    w.write(None);
    assert!(w.is_ended());
    assert_eq!(w.bytes().clone(), b"abcd".to_vec());
}
