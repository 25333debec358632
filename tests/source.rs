use address_comment_loader::record::{kept_records, RowOutcome};
use address_comment_loader::source::{
    comment_count, get_screenwroks_comments, get_screenwroks_outcomes, get_toyopuc_comments, get_toyopuc_outcomes,
    CommentCount,
};

fn slot(s: &str, w: usize) -> Vec<u8> {
    let mut v = s.as_bytes().to_vec();
    v.resize(w, b' ');
    v
}

fn utf16le(s: &str) -> Vec<u8> {
    s.encode_utf16().flat_map(|u| u.to_le_bytes()).collect()
}

fn flatten(table: &[Vec<u8>]) -> Vec<u8> {
    table.iter().flat_map(|r| r.iter().copied()).collect()
}

const TWO_ROWS: &str = "Address,Comment\nEM1A0,ENDURANCE\nGMF900,L/C FAULT (OPERATOR SIDE)\n";

#[test]
fn utf8_source_end_to_end() {
    let table = get_toyopuc_comments(&TWO_ROWS.as_bytes().to_vec(), 0, 1);
    let out = flatten(&table);
    assert_eq!(out.len(), 320);
    assert_eq!(&out[0..64], &slot("EM1A0", 64)[..]);
    assert_eq!(&out[64..160], &slot("ENDURANCE", 96)[..]);
    assert_eq!(&out[160..224], &slot("GMF900", 64)[..]);
    assert_eq!(&out[224..320], &slot("L/C FAULT (OPERATOR SIDE)", 96)[..]);
}

#[test]
fn utf16le_source_end_to_end() {
    let table = get_screenwroks_comments(&utf16le(TWO_ROWS), 0, 1);
    let out = flatten(&table);
    assert_eq!(out.len(), 320);
    assert_eq!(&out[0..64], &slot("EM1A0", 64)[..]);
    assert_eq!(&out[224..320], &slot("L/C FAULT (OPERATOR SIDE)", 96)[..]);
}

#[test]
fn utf16le_source_with_non_ascii_text() {
    let src = "a,b\nX1,Pression \u{e9}lev\u{e9}e\n";
    let table = get_screenwroks_comments(&utf16le(src), 0, 1);
    assert_eq!(table.len(), 1);
    assert_eq!(&table[0][64..160], &slot("Pression \u{e9}lev\u{e9}e", 96)[..]);
}

#[test]
fn first_line_is_the_header() {
    let table = get_toyopuc_comments(&b"EM1A0,ENDURANCE\n".to_vec(), 0, 1);
    assert!(table.is_empty());
}

#[test]
fn rows_of_any_length_are_tolerated() {
    let src = b"h1,h2,h3\nA,one\nB\nC,two,extra,more\n".to_vec();
    let table = get_toyopuc_comments(&src, 0, 1);
    assert_eq!(table.len(), 2);
    assert_eq!(&table[0][..64], &slot("A", 64)[..]);
    assert_eq!(&table[1][..64], &slot("C", 64)[..]);
    assert_eq!(&table[1][64..], &slot("two", 96)[..]);
}

#[test]
fn quoted_fields_and_escaped_breaks() {
    let src = b"a,c\n\"GMF900\\SYS1\",\"L/C FAULT\\nOPERATOR, SIDE\"\n".to_vec();
    let table = get_toyopuc_comments(&src, 0, 1);
    assert_eq!(table.len(), 1);
    assert_eq!(&table[0][..64], &slot("GMF900", 64)[..]);
    assert_eq!(&table[0][64..], &slot("L/C FAULT OPERATOR, SIDE", 96)[..]);
}

#[test]
fn row_with_invalid_utf8_is_skipped() {
    let src = b"a,c\nA,\xff\xfe\nB,ok\n".to_vec();
    let table = get_toyopuc_comments(&src, 0, 1);
    assert_eq!(table.len(), 1);
    assert_eq!(&table[0][..64], &slot("B", 64)[..]);
}

#[test]
fn source_without_valid_rows_gives_empty_table() {
    let table = get_toyopuc_comments(&b"a,c\nonly_one_field\n".to_vec(), 0, 1);
    assert!(table.is_empty());
    assert_eq!(comment_count(table.len()), CommentCount::NoComments);
    assert!(get_toyopuc_comments(&Vec::new(), 0, 1).is_empty());
    assert!(get_screenwroks_comments(&Vec::new(), 0, 1).is_empty());
}

#[test]
fn count_classes() {
    assert_eq!(comment_count(0), CommentCount::NoComments);
    assert_eq!(comment_count(1), CommentCount::One);
    assert_eq!(comment_count(2), CommentCount::Many(2));
    assert_eq!(comment_count(1000), CommentCount::Many(1000));
}

#[test]
fn outcomes_of_utf8_source() {
    let src = b"a,c\nA,one\nB\nC,\xff\n".to_vec();
    let outcomes = get_toyopuc_outcomes(&src, 0, 1);
    assert_eq!(outcomes.len(), 3);
    assert!(matches!(outcomes[0], RowOutcome::Packed(_)));
    assert!(matches!(outcomes[1], RowOutcome::ShortRow));
    assert!(matches!(outcomes[2], RowOutcome::Unreadable));
    assert_eq!(kept_records(&outcomes), get_toyopuc_comments(&src, 0, 1));
}

#[test]
fn outcomes_of_utf16le_source() {
    let outcomes = get_screenwroks_outcomes(&utf16le(TWO_ROWS), 0, 1);
    assert_eq!(outcomes.len(), 2);
    assert_eq!(kept_records(&outcomes), get_screenwroks_comments(&utf16le(TWO_ROWS), 0, 1));
}

#[test]
fn empty_comment_in_source_gets_sentinel() {
    let table = get_toyopuc_comments(&b"a,c\nEM1A0,\n".to_vec(), 0, 1);
    assert_eq!(table.len(), 1);
    assert_eq!(&table[0][64..], &slot("Not found", 96)[..]);
}
