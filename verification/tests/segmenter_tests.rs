use mtga_stats::segmenter::{flush, run, Segmenter};

fn lines(ls: &[&str]) -> Vec<String> {
    ls.iter().map(|l| l.to_string()).collect()
}

fn contents(ls: &[&str]) -> Vec<String> {
    run(&lines(ls)).into_iter().map(|c| c.content).collect()
}

#[test]
fn marker_lines_begin_chunks() {
    let got = contents(&[
        "[UnityCrossThreadLogger]1/1 Match to U: GreToClientEvent",
        "{",
        "\"a\": 1",
        "}",
        "[UnityCrossThreadLogger]  second  ",
        "body",
    ]);
    assert_eq!(got, vec!["1/1 Match to U: GreToClientEvent\n{\n\"a\": 1\n}", "second\nbody"]);
}

#[test]
fn lines_without_a_marker_are_one_chunk() {
    assert_eq!(contents(&["a", "b", "c"]), vec!["a\nb\nc"]);
    assert!(contents(&[]).is_empty());
}

#[test]
fn bare_marker_lines_give_no_empty_chunk() {
    assert_eq!(contents(&["[UnityCrossThreadLogger]", "[UnityCrossThreadLogger]x"]), vec!["x"]);
    assert!(contents(&["[UnityCrossThreadLogger]   "]).is_empty());
}

#[test]
fn segmenter_step_by_step() {
    let mut s = Segmenter::new();
    assert!(s.push_line("pre".to_string()).is_none());
    let c = s.push_line("[UnityCrossThreadLogger]next".to_string()).unwrap();
    assert_eq!(c.content, "pre");
    assert!(s.push_line("more".to_string()).is_none());
    assert_eq!(s.finish().unwrap().content, "next\nmore");
    assert!(s.finish().is_none());
}

#[test]
fn flush_empties_the_buffer() {
    let mut buf = lines(&["x", "y"]);
    assert_eq!(flush(&mut buf).unwrap().content, "x\ny");
    assert!(buf.is_empty());
    assert!(flush(&mut buf).is_none());
}

#[test]
fn marker_line_closes_the_chunk_in_progress() {
    let mut s = Segmenter::new();
    assert!(s.push_line("a".to_string()).is_none());
    assert!(s.push_line("b".to_string()).is_none());
    let c = s.push_line("[UnityCrossThreadLogger]".to_string()).unwrap();
    assert_eq!(c.content, "a\nb");
    assert!(s.finish().is_none());
}
