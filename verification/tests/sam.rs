use doppelganger::rewrite::{rewrite, RewriteError, RewriteOutcome};
use rust_htslib::bam::record::Aux;
use rust_htslib::bam::{HeaderView, Record};

fn parsed(line: &[u8]) -> Record {
    let header = HeaderView::from_bytes(b"@SQ\tSN:chr1\tLN:1000\n");
    Record::from_sam(&header, line).unwrap()
}

#[test]
fn parsed_supplementary_read_is_trimmed() {
    let mut rec = parsed(
        b"read\t2048\tchr1\t100\t60\t5H10M5H\t*\t0\t0\tACGTACGTAC\tIIIIIIIIII\t\
          NM:i:1\tBI:Z:ABCDEFGHIJKLMNOPQRST\tBD:Z:abcdefghijklmnopqrst\tRG:Z:lane1",
    );
    assert_eq!(rewrite(&mut rec), RewriteOutcome::Rewritten);
    let expected = parsed(
        b"read\t2048\tchr1\t100\t60\t5H10M5H\t*\t0\t0\tACGTACGTAC\tIIIIIIIIII\t\
          NM:i:1\tRG:Z:lane1\tBI:Z:FGHIJKLMNO\tBD:Z:fghijklmno",
    );
    assert!(rec == expected);
}

#[test]
fn parsed_primary_read_is_left_alone() {
    let line: &[u8] = b"read\t16\tchr1\t100\t60\t5H10M5H\t*\t0\t0\tACGTACGTAC\tIIIIIIIIII\t\
          BI:Z:ABCDEFGHIJKLMNOPQRST\tBD:Z:abcdefghijklmnopqrst";
    let mut rec = parsed(line);
    assert_eq!(rewrite(&mut rec), RewriteOutcome::Unchanged);
    assert!(rec == parsed(line));
}

#[test]
fn unknown_cigar_operation_fails() {
    let line: &[u8] = b"read\t2048\tchr1\t100\t60\t5H4M2B4M5H\t*\t0\t0\tACGTACGT\tIIIIIIII\t\
          BI:Z:ABCDEFGHIJKLMNOPQR\tBD:Z:abcdefghijklmnopqr";
    let mut rec = parsed(line);
    assert_eq!(rec.raw_cigar()[2] & 0xf, 9);
    assert_eq!(rewrite(&mut rec), RewriteOutcome::Failed(RewriteError::UnknownCigarOperation));
    assert!(rec == parsed(line));
}

#[test]
fn missing_field_is_said_before_unknown_operation() {
    let mut rec = parsed(
        b"read\t2048\tchr1\t100\t60\t5H4M2B4M5H\t*\t0\t0\tACGTACGT\tIIIIIIII\t\
          BI:Z:ABCDEFGHIJKLMNOPQR",
    );
    assert_eq!(rewrite(&mut rec), RewriteOutcome::Failed(RewriteError::MissingBd));
}

#[test]
fn text_of_hexadecimal_digits_is_text() {
    let mut rec = parsed(
        b"read\t2048\tchr1\t100\t60\t2H4M2H\t*\t0\t0\tACGT\tIIII\t\
          BI:H:0123ABCD\tBD:H:4567CDEF",
    );
    assert_eq!(rewrite(&mut rec), RewriteOutcome::Rewritten);
    assert_eq!(rec.aux(b"BI"), Some(Aux::String(b"23AB")));
    assert_eq!(rec.aux(b"BD"), Some(Aux::String(b"67CD")));
    let expected = parsed(
        b"read\t2048\tchr1\t100\t60\t2H4M2H\t*\t0\t0\tACGT\tIIII\t\
          BI:Z:23AB\tBD:Z:67CD",
    );
    assert!(rec == expected);
}

#[test]
fn array_is_no_text() {
    let line: &[u8] = b"read\t2048\tchr1\t100\t60\t2H4M2H\t*\t0\t0\tACGT\tIIII\t\
          BI:B:c,1,2,3,4,5,6,7,8\tBD:Z:abcdefgh";
    let mut rec = parsed(line);
    assert_eq!(rewrite(&mut rec), RewriteOutcome::Failed(RewriteError::MissingBi));
    assert!(rec == parsed(line));
}

#[test]
fn soft_clips_do_not_move_the_range() {
    let mut rec = parsed(
        b"read\t2048\tchr1\t100\t60\t2S6M2S\t*\t0\t0\tACGTACGTAC\tIIIIIIIIII\t\
          BI:Z:ABCDEFGHIJ\tBD:Z:abcdefghij",
    );
    assert_eq!(rewrite(&mut rec), RewriteOutcome::Rewritten);
    assert_eq!(rec.aux(b"BI"), Some(Aux::String(b"ABCDEFGHIJ")));
    assert_eq!(rec.aux(b"BD"), Some(Aux::String(b"abcdefghij")));
}
