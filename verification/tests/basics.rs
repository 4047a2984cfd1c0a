use ustunet::Error;

#[test]
fn it_works() {
    assert_eq!(2 + 2, 4);
}

#[test]
fn t1() {}

#[test]
fn an_error_keeps_its_source() {
    let source = std::io::Error::from(std::io::ErrorKind::NotFound);
    let Error::Io { source } = Error::Io { source };
    assert_eq!(source.kind(), std::io::ErrorKind::NotFound);
}
