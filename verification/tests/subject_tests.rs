use service_commons::subject::Subject;
use std::str::FromStr;

#[test]
fn subject_marshalling_works() {
    assert_eq!(Subject::Admin("foo".to_string()).to_string(), "admin/foo".to_string());
    assert_eq!(Subject::Customer("foo".to_string()).to_string(), "customer/foo".to_string());
    assert_eq!(Subject::Service("foo".to_string()).to_string(), "service/foo".to_string());
    assert_eq!(Subject::Api("foo".to_string()).to_string(), "api/foo".to_string());
    assert_eq!(Subject::Generic("foo".to_string()).to_string(), "foo".to_string());
}

#[test]
fn a_subject_is_read_by_its_beginning() {
    assert_eq!(Subject::parse("admin/foo"), Subject::Admin("foo".to_string()));
    assert_eq!(Subject::parse("customer/foo"), Subject::Customer("foo".to_string()));
    assert_eq!(Subject::parse("service/foo"), Subject::Service("foo".to_string()));
    assert_eq!(Subject::parse("api/foo"), Subject::Api("foo".to_string()));
    assert_eq!(Subject::parse("foo"), Subject::Generic("foo".to_string()));
    assert_eq!(Subject::parse("xadmin/foo"), Subject::Generic("xadmin/foo".to_string()));
    assert_eq!(Subject::parse(""), Subject::Generic("".to_string()));
    assert_eq!(Subject::from_str("admin/foo").unwrap(), Subject::Admin("foo".to_string()));
}

#[test]
fn every_occurrence_of_the_beginning_is_taken_out() {
    assert_eq!(Subject::parse("admin/admin/foo"), Subject::Admin("foo".to_string()));
    assert_eq!(Subject::parse("admin/a/admin/b"), Subject::Admin("a/b".to_string()));
    assert_eq!(Subject::parse("api/x-api/"), Subject::Api("x-".to_string()));
    assert_eq!(Subject::parse("admin/"), Subject::Admin("".to_string()));
}
