use lace::parser::{DirKind, StrParser};

#[test]
fn directives_ignore_case() {
    assert_eq!(StrParser::direc(".ORIG"), Some(DirKind::Orig));
    assert_eq!(StrParser::direc(".end"), Some(DirKind::End));
    assert_eq!(StrParser::direc(".Stringz"), Some(DirKind::Stringz));
    assert_eq!(StrParser::direc(".blkw"), Some(DirKind::Blkw));
    assert_eq!(StrParser::direc(".fill"), Some(DirKind::Fill));
    assert_eq!(StrParser::direc("orig"), None);
    let _ = StrParser::new(".orig x3000");
}
