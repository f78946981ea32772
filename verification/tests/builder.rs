use pcre2::bytes::{Config, PatternInfo, RegexBuilder};
use pcre2::{Error, ErrorKind};

const CASELESS: u32 = 8;
const DOTALL: u32 = 32;
const EXTENDED: u32 = 128;
const MULTILINE: u32 = 1024;
const UCP: u32 = 131072;
const UTF: u32 = 524288;
const NO_UTF_CHECK: u32 = 1073741824;

fn no_names() -> PatternInfo {
    PatternInfo { capture_count: 0, name_count: 0, name_entry_size: 0, name_table: vec![] }
}

#[test]
fn default_builder_sets_no_option() {
    let b = RegexBuilder::new();
    assert_eq!(b.compile_options(), 0);
    assert_eq!(b.config(), Config::default());
    assert!(b.config().utf_check);
    let re = b.build("a", &no_names()).unwrap();
    assert_eq!(re.match_options(), 0);
}

#[test]
fn each_mode_sets_its_option() {
    assert_eq!(RegexBuilder::new().caseless(true).compile_options(), CASELESS);
    assert_eq!(RegexBuilder::new().dotall(true).compile_options(), DOTALL);
    assert_eq!(RegexBuilder::new().extended(true).compile_options(), EXTENDED);
    assert_eq!(RegexBuilder::new().multiline(true).compile_options(), MULTILINE);
    assert_eq!(RegexBuilder::new().utf(true).compile_options(), UTF);
    assert_eq!(RegexBuilder::new().jit(true).compile_options(), 0);
    assert!(RegexBuilder::new().jit(true).config().jit);
}

#[test]
fn ucp_implies_utf() {
    assert_eq!(RegexBuilder::new().ucp(true).compile_options(), UCP | UTF);
    assert_eq!(RegexBuilder::new().ucp(true).utf(true).compile_options(), UCP | UTF);
    assert_eq!(
        RegexBuilder::new().caseless(true).ucp(true).compile_options(),
        CASELESS | UCP | UTF
    );
}

#[test]
fn settings_can_be_turned_off_again() {
    let mut b = RegexBuilder::new();
    b.caseless(true).dotall(true).extended(true).multiline(true);
    assert_eq!(b.compile_options(), CASELESS | DOTALL | EXTENDED | MULTILINE);
    b.caseless(false).multiline(false);
    assert_eq!(b.compile_options(), DOTALL | EXTENDED);
}

#[test]
fn disabling_the_utf_check_reaches_searches() {
    let mut b = RegexBuilder::new();
    b.utf(true).disable_utf_check();
    assert!(!b.config().utf_check);
    let re = b.build(".", &no_names()).unwrap();
    assert_eq!(re.match_options(), NO_UTF_CHECK);
    let re2 = re.clone();
    assert_eq!(re2.match_options(), NO_UTF_CHECK);
    assert_eq!(re2.as_str(), ".");
}

#[test]
fn errors_carry_kind_code_and_offset() {
    let e = Error::compile(101, 7);
    assert_eq!(*e.kind(), ErrorKind::Compile);
    assert_eq!(e.code(), 101);
    assert_eq!(e.offset(), Some(7));
    let e = Error::jit(-48);
    assert_eq!((*e.kind(), e.code(), e.offset()), (ErrorKind::JIT, -48, None));
    assert_eq!(*Error::info(-33).kind(), ErrorKind::Info);
    assert_eq!(*Error::option(-34).kind(), ErrorKind::Option);
    assert_eq!(*Error::matching(-1).kind(), ErrorKind::Match);
}
