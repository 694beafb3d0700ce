use electron::basis::{
    check_body, check_status, elements_field_is_empty, fetch_basis, fetch_basis_impl,
    is_valid_cache, next_action, normalize_element, BasisSet, BseError, FetchAction, FetchEvent,
    FetchPlan, LoadError, ParseError,
};
use electron::document::{Json, JsonKind};
use electron::elements::{element_symbol, is_element};
use electron::qcschema::{atomic_number, parse_basis, parse_basis_json, parse_shell};
use electron::text::{decimal, join2, join3, parse_u32, signed_decimal, title_case};
use electron::load::{load_basis, load_basis_impl};
use std::cell::RefCell;
use std::collections::{BTreeMap, BTreeSet};

const VALID_RESPONSE: &str = r#"{"elements":{"1":{"electron_shells":[]}}}"#;

/// A plan for the service at `base` with files under `root`.
fn plan(element: &str, basis: &str, base: &str, root: &str) -> Result<FetchPlan, BseError> {
    fetch_basis_impl(element, basis, base, root)
}

/// Reads a string as a number, as the program does.
fn to_real(s: &String) -> Option<f64> {
    s.parse::<f64>().ok()
}

/// Reads the basis set of a file with the given content.
fn parse(content: &str) -> Result<BasisSet<f64>, ParseError> {
    parse_basis(Ok(content.to_string()), to_real)
}

// -------------------------------------------------------------------------
// A file system and a service held in memory
// -------------------------------------------------------------------------

/// What the fetch runs against: the files and directories that exist, and
/// the service with its one answer.
struct World {
    files: BTreeMap<String, String>,
    directories: BTreeSet<String>,
    /// The address that the service answers, with status and body; any
    /// other address is unreachable.
    answer: Option<(String, u16, String)>,
    requests: usize,
}

impl World {
    fn new(root: &str) -> World {
        let mut directories = BTreeSet::new();
        directories.insert(root.to_string());
        World { files: BTreeMap::new(), directories, answer: None, requests: 0 }
    }

    fn serving(root: &str, path: &str, status: u16, body: &str) -> World {
        let mut world = World::new(root);
        world.answer = Some((format!("{}{}", SERVER, path), status, body.to_string()));
        world
    }

    fn make_directories(&mut self, dir: &str) -> Result<(), String> {
        let ends: Vec<usize> = dir
            .char_indices()
            .filter(|&(i, c)| c == '/' && i > 0)
            .map(|(i, _)| i)
            .chain([dir.len()])
            .collect();
        for end in ends {
            let path = &dir[..end];
            if self.files.contains_key(path) {
                return Err("Not a directory (os error 20)".to_string());
            }
            self.directories.insert(path.to_string());
        }
        Ok(())
    }

    fn write(&mut self, path: &str, content: &str) -> Result<(), String> {
        if self.directories.contains(path) {
            return Err("Is a directory (os error 21)".to_string());
        }
        self.files.insert(path.to_string(), content.to_string());
        Ok(())
    }
}

const SERVER: &str = "http://127.0.0.1:1234";
const ROOT: &str = "/tmp/cache";

/// The path of the file of a plan.
fn path_of(plan: &FetchPlan) -> String {
    format!("{}/{}/{}", plan.cache_root, plan.basis, plan.file_name)
}

/// Carries a plan out in the world, step by step as the library says.
fn carry_out(world: &mut World, plan: &FetchPlan) -> Result<(), BseError> {
    let dir = format!("{}/{}", plan.cache_root, plan.basis);
    let path = path_of(plan);
    let mut body = String::new();
    let mut event = FetchEvent::Started;
    for _ in 0..10 {
        event = match next_action(plan, event) {
            FetchAction::ReadCache => FetchEvent::CacheRead(world.files.get(&path).cloned()),
            FetchAction::Request => {
                world.requests += 1;
                match &world.answer {
                    Some((url, status, _)) if *url == plan.url => FetchEvent::Answered(Ok(*status)),
                    _ => FetchEvent::Answered(Err("connection refused".to_string())),
                }
            }
            FetchAction::ReadBody => {
                body = world.answer.as_ref().unwrap().2.clone();
                FetchEvent::BodyRead(Ok(body.clone()))
            }
            FetchAction::MakeDirectory => FetchEvent::DirectoryMade(world.make_directories(&dir)),
            FetchAction::WriteFile => FetchEvent::FileWritten(world.write(&path, &body)),
            FetchAction::Finish(end) => return end,
        };
    }
    panic!("the fetch did not end");
}

/// Plans the fetch and carries it out in the world; returns the path of
/// the file.
fn fetch_in(world: &mut World, element: &str, basis: &str, base: &str) -> Result<String, BseError> {
    let plan = fetch_basis_impl(element, basis, base, ROOT)?;
    carry_out(world, &plan)?;
    Ok(path_of(&plan))
}

// -------------------------------------------------------------------------
// Happy paths
// -------------------------------------------------------------------------

// Scenario: Download a basis set that is not cached
#[test]
fn download_basis_not_cached() {
    let mut world = World::serving(
        ROOT,
        "/api/basis/sto-3g/format/qcschema?elements=H",
        200,
        VALID_RESPONSE,
    );
    let result = fetch_in(&mut world, "H", "sto-3g", SERVER);
    let path = result.expect("should succeed");

    assert_eq!(path, "/tmp/cache/sto-3g/H.json");
    let content = world.files.get(&path).expect("file written");
    assert_eq!(content, VALID_RESPONSE);
}

// Scenario: Return cached file when a valid cache exists
// (also verifies no HTTP request is made)
#[test]
fn return_cached_when_valid() {
    let mut world = World::new(ROOT);
    world.make_directories("/tmp/cache/sto-3g").unwrap();
    world.write("/tmp/cache/sto-3g/H.json", VALID_RESPONSE).unwrap();

    // "http://localhost:1" is unreachable; any HTTP request would produce NetworkError
    let result = fetch_in(&mut world, "H", "sto-3g", "http://localhost:1");
    assert_eq!(result.expect("should succeed"), "/tmp/cache/sto-3g/H.json");
    assert_eq!(world.requests, 0);
    assert!(is_valid_cache(VALID_RESPONSE));
}

// Scenario: Create data/basis directory if it does not exist
#[test]
fn creates_missing_data_basis_directory() {
    let mut world = World::serving(
        "/tmp",
        "/api/basis/sto-3g/format/qcschema?elements=H",
        200,
        VALID_RESPONSE,
    );
    // the cache root does not exist yet
    assert!(!world.directories.contains(ROOT));
    fetch_in(&mut world, "H", "sto-3g", SERVER).expect("should succeed");

    assert!(world.directories.contains(ROOT));
    assert!(world.files.contains_key("/tmp/cache/sto-3g/H.json"));
}

// Scenario: Create basis-set subdirectory if it does not exist
#[test]
fn creates_missing_basis_subdirectory() {
    let mut world = World::serving(
        ROOT,
        "/api/basis/sto-3g/format/qcschema?elements=H",
        200,
        VALID_RESPONSE,
    );
    // cache root exists; subdirectory does not
    assert!(!world.directories.contains("/tmp/cache/sto-3g"));

    fetch_in(&mut world, "H", "sto-3g", SERVER).expect("should succeed");

    assert!(world.directories.contains("/tmp/cache/sto-3g"));
    assert!(world.files.contains_key("/tmp/cache/sto-3g/H.json"));
}

// Scenario: Basis set name is normalized to lowercase in the file path
#[test]
fn basis_name_normalized_to_lowercase() {
    let mut world = World::serving(
        ROOT,
        "/api/basis/sto-3g/format/qcschema?elements=H",
        200,
        VALID_RESPONSE,
    );
    let result = fetch_in(&mut world, "H", "STO-3G", SERVER);
    assert_eq!(result.expect("should succeed"), "/tmp/cache/sto-3g/H.json");
}

// Scenario: Element symbol is normalized to title case in the file path
#[test]
fn element_normalized_to_title_case() {
    let mut world = World::serving(
        ROOT,
        "/api/basis/sto-3g/format/qcschema?elements=H",
        200,
        VALID_RESPONSE,
    );
    let result = fetch_in(&mut world, "h", "sto-3g", SERVER);
    assert_eq!(result.expect("should succeed"), "/tmp/cache/sto-3g/H.json");
}

// -------------------------------------------------------------------------
// Input validation
// -------------------------------------------------------------------------

// Scenario: Reject an unrecognised element symbol
#[test]
fn reject_unrecognised_element() {
    let mut world = World::new(ROOT);
    let result = fetch_in(&mut world, "Xx", "sto-3g", "http://localhost:1");
    assert!(matches!(result, Err(BseError::InvalidElement(s)) if s == "Xx"));
}

// Scenario: Reject an empty element symbol
#[test]
fn reject_empty_element() {
    let mut world = World::new(ROOT);
    let result = fetch_in(&mut world, "", "sto-3g", "http://localhost:1");
    assert!(matches!(result, Err(BseError::InvalidElement(s)) if s.is_empty()));
}

// Scenario: Reject an empty basis set name
#[test]
fn reject_empty_basis_name() {
    let mut world = World::new(ROOT);
    let result = fetch_in(&mut world, "H", "", "http://localhost:1");
    assert!(matches!(result, Err(BseError::InvalidBasisSetName(s)) if s.is_empty()));
}

// -------------------------------------------------------------------------
// BSE API error responses
// -------------------------------------------------------------------------

// Scenario: Basis set name is not known to the BSE (HTTP 404)
#[test]
fn unknown_basis_set_on_404() {
    let mut world = World::serving(
        ROOT,
        "/api/basis/unknown-basis/format/qcschema?elements=H",
        404,
        "",
    );
    let result = fetch_in(&mut world, "H", "unknown-basis", SERVER);
    assert!(matches!(result, Err(BseError::UnknownBasisSet(s)) if s == "unknown-basis"));
    assert!(!world.files.contains_key("/tmp/cache/unknown-basis/H.json"));
}

// Scenario: Element is not included in the requested basis set
#[test]
fn element_not_in_basis_set_on_empty_elements() {
    let mut world = World::serving(
        ROOT,
        "/api/basis/sto-3g/format/qcschema?elements=Au",
        200,
        r#"{"elements":{}}"#,
    );
    let result = fetch_in(&mut world, "Au", "sto-3g", SERVER);
    assert!(
        matches!(result, Err(BseError::ElementNotInBasisSet { ref element, ref basis_name })
        if element == "Au" && basis_name == "sto-3g"),
        "expected ElementNotInBasisSet, got {:?}",
        result
    );
    assert!(!world.files.contains_key("/tmp/cache/sto-3g/Au.json"));
}

// Scenario: BSE API returns an unexpected HTTP status code
#[test]
fn network_error_on_unexpected_status() {
    let mut world =
        World::serving(ROOT, "/api/basis/sto-3g/format/qcschema?elements=H", 500, "");
    let result = fetch_in(&mut world, "H", "sto-3g", SERVER);
    assert!(matches!(result, Err(BseError::NetworkError(_))));
    assert!(!world.files.contains_key("/tmp/cache/sto-3g/H.json"));
}

// Scenario: BSE API is unreachable
#[test]
fn network_error_when_unreachable() {
    let mut world = World::new(ROOT);
    let result = fetch_in(&mut world, "H", "sto-3g", "http://127.0.0.1:59999");
    assert!(matches!(result, Err(BseError::NetworkError(_))));
}

// Scenario: BSE API returns a response that is not valid JSON
#[test]
fn invalid_response_on_non_json_body() {
    let mut world = World::serving(
        ROOT,
        "/api/basis/sto-3g/format/qcschema?elements=H",
        200,
        "this is not json",
    );
    let result = fetch_in(&mut world, "H", "sto-3g", SERVER);
    assert!(matches!(result, Err(BseError::InvalidResponse(_))));
    assert!(!world.files.contains_key("/tmp/cache/sto-3g/H.json"));
}

// -------------------------------------------------------------------------
// Cache validation
// -------------------------------------------------------------------------

// Scenario: Re-download when cached file is empty
#[test]
fn redownload_when_cache_is_empty() {
    let mut world = World::serving(
        ROOT,
        "/api/basis/sto-3g/format/qcschema?elements=H",
        200,
        VALID_RESPONSE,
    );
    world.make_directories("/tmp/cache/sto-3g").unwrap();
    world.write("/tmp/cache/sto-3g/H.json", "").unwrap();

    fetch_in(&mut world, "H", "sto-3g", SERVER).expect("should succeed");

    assert_eq!(world.requests, 1);
    assert_eq!(world.files.get("/tmp/cache/sto-3g/H.json").unwrap(), VALID_RESPONSE);
}

// Scenario: Re-download when cached file contains invalid JSON
#[test]
fn redownload_when_cache_contains_invalid_json() {
    let mut world = World::serving(
        ROOT,
        "/api/basis/sto-3g/format/qcschema?elements=H",
        200,
        VALID_RESPONSE,
    );
    world.make_directories("/tmp/cache/sto-3g").unwrap();
    world.write("/tmp/cache/sto-3g/H.json", "{ invalid json }").unwrap();

    fetch_in(&mut world, "H", "sto-3g", SERVER).expect("should succeed");

    assert_eq!(world.requests, 1);
    assert_eq!(world.files.get("/tmp/cache/sto-3g/H.json").unwrap(), VALID_RESPONSE);
}

// -------------------------------------------------------------------------
// Filesystem errors
// -------------------------------------------------------------------------

// Scenario: Filesystem error when creating the directory
// Simulate by placing a regular file at the path where the directory should be.
#[test]
fn io_error_when_dir_cannot_be_created() {
    let mut world = World::serving(
        ROOT,
        "/api/basis/sto-3g/format/qcschema?elements=H",
        200,
        VALID_RESPONSE,
    );
    // Place a file at the path where the "sto-3g" directory should be created
    world.write("/tmp/cache/sto-3g", "").unwrap();

    let result = fetch_in(&mut world, "H", "sto-3g", SERVER);
    assert!(matches!(result, Err(BseError::IoError(_))));
}

// Scenario: Filesystem error when writing the downloaded file
// Simulate by placing a directory at the path where the JSON file should be written.
#[test]
fn io_error_when_file_cannot_be_written() {
    let mut world = World::serving(
        ROOT,
        "/api/basis/sto-3g/format/qcschema?elements=H",
        200,
        VALID_RESPONSE,
    );
    // Place a directory at the path where H.json should be written
    world.make_directories("/tmp/cache/sto-3g/H.json").unwrap();

    let result = fetch_in(&mut world, "H", "sto-3g", SERVER);
    assert!(matches!(result, Err(BseError::IoError(_))));
}

// -------------------------------------------------------------------------
// The plan and the steps by themselves
// -------------------------------------------------------------------------

#[test]
fn plan_names_file_and_address() {
    let p = plan("H", "sto-3g", SERVER, ROOT).expect("should succeed");
    assert_eq!(p.cache_root, "/tmp/cache");
    assert_eq!(p.basis, "sto-3g");
    assert_eq!(p.file_name, "H.json");
    assert_eq!(p.url, "http://127.0.0.1:1234/api/basis/sto-3g/format/qcschema?elements=H");
    assert_eq!(check_status(200, &p.basis), Ok(()));
    assert_eq!(check_body(VALID_RESPONSE, &p), Ok(()));
}

#[test]
fn steps_of_a_fetch() {
    let p = plan("Au", "STO-3G", SERVER, ROOT).expect("should succeed");
    let words = || "words".to_string();
    assert_eq!(next_action(&p, FetchEvent::Started), FetchAction::ReadCache);
    assert_eq!(next_action(&p, FetchEvent::CacheRead(None)), FetchAction::Request);
    assert_eq!(next_action(&p, FetchEvent::CacheRead(Some("".to_string()))), FetchAction::Request);
    assert_eq!(
        next_action(&p, FetchEvent::CacheRead(Some("{".to_string()))),
        FetchAction::Request
    );
    assert_eq!(
        next_action(&p, FetchEvent::CacheRead(Some("{}".to_string()))),
        FetchAction::Finish(Ok(()))
    );
    assert_eq!(
        next_action(&p, FetchEvent::Answered(Err(words()))),
        FetchAction::Finish(Err(BseError::NetworkError(words())))
    );
    assert_eq!(next_action(&p, FetchEvent::Answered(Ok(200))), FetchAction::ReadBody);
    assert_eq!(
        next_action(&p, FetchEvent::Answered(Ok(404))),
        FetchAction::Finish(Err(BseError::UnknownBasisSet("sto-3g".to_string())))
    );
    assert_eq!(
        next_action(&p, FetchEvent::Answered(Ok(201))),
        FetchAction::Finish(Err(BseError::NetworkError("unexpected HTTP status 201".to_string())))
    );
    assert_eq!(
        next_action(&p, FetchEvent::BodyRead(Err(words()))),
        FetchAction::Finish(Err(BseError::NetworkError(words())))
    );
    assert_eq!(
        next_action(&p, FetchEvent::BodyRead(Ok(VALID_RESPONSE.to_string()))),
        FetchAction::MakeDirectory
    );
    assert_eq!(
        next_action(&p, FetchEvent::BodyRead(Ok("{}".to_string()))),
        FetchAction::Finish(Err(BseError::ElementNotInBasisSet {
            element: "Au".to_string(),
            basis_name: "sto-3g".to_string()
        }))
    );
    assert!(matches!(
        next_action(&p, FetchEvent::BodyRead(Ok("{".to_string()))),
        FetchAction::Finish(Err(BseError::InvalidResponse(_)))
    ));
    assert_eq!(next_action(&p, FetchEvent::DirectoryMade(Ok(()))), FetchAction::WriteFile);
    assert_eq!(
        next_action(&p, FetchEvent::DirectoryMade(Err(words()))),
        FetchAction::Finish(Err(BseError::IoError(words())))
    );
    assert_eq!(next_action(&p, FetchEvent::FileWritten(Ok(()))), FetchAction::Finish(Ok(())));
    assert_eq!(
        next_action(&p, FetchEvent::FileWritten(Err(words()))),
        FetchAction::Finish(Err(BseError::IoError(words())))
    );
}

// ==========================================================================
// parse_basis tests
// ==========================================================================

// A to_real STO-3G hydrogen s-shell.
const H_1S: &str = r#"{"elements":{"1":{"electron_shells":[
    {"function_type":"gto","angular_momentum":[0],
     "exponents":["3.4252509","0.6239137","0.1688554"],
     "coefficients":[["0.1543290","0.5353281","0.4446345"]]}
  ]}}}"#;

// STO-3G carbon: one s-shell (Z=6) and one p-shell.
const C_1S_1P: &str = r#"{"elements":{"6":{"electron_shells":[
    {"function_type":"gto","angular_momentum":[0],
     "exponents":["71.6168370","13.0450963","3.5305122"],
     "coefficients":[["0.1543290","0.5353281","0.4446345"]]},
    {"function_type":"gto","angular_momentum":[1],
     "exponents":["2.9412494","0.6834831","0.2222899"],
     "coefficients":[["0.2364600","0.8768660","0.2364600"]]}
  ]}}}"#;

// Lithium with a single SP shell (angular_momentum [0,1], 2 coeff vectors).
const LI_SP: &str = r#"{"elements":{"3":{"electron_shells":[
    {"function_type":"gto","angular_momentum":[0,1],
     "exponents":["16.1195750","2.9362007","0.7946505"],
     "coefficients":[
       ["0.1543290","0.5353281","0.4446345"],
       ["0.2494820","0.8657560","0.0000000"]
     ]}
  ]}}}"#;

// Copper with one s-shell and a spurious ecp_potentials key.
const CU_WITH_ECP: &str = r#"{"elements":{"29":{"electron_shells":[
    {"function_type":"gto","angular_momentum":[0],
     "exponents":["1.2","0.5"],
     "coefficients":[["0.8","0.4"]]}
  ],"ecp_potentials":[{"ecp_type":"scalar"}]}}}"#;

// Scenario: Parse a valid single-shell file
#[test]
fn parse_valid_single_shell() {
    let bs = parse(H_1S).expect("should succeed");
    assert_eq!(bs.element, "H");
    assert_eq!(bs.atomic_number, 1);
    assert_eq!(bs.shells.len(), 1);
    assert_eq!(bs.shells[0].angular_momentum, 0);
    assert_eq!(bs.shells[0].exponents.len(), 3);
    assert_eq!(bs.shells[0].coefficients.len(), 3);
}

// Scenario: Parse a file with multiple shells
#[test]
fn parse_multiple_shells() {
    let bs = parse(C_1S_1P).expect("should succeed");
    assert_eq!(bs.shells.len(), 2);
    assert_eq!(bs.shells[0].angular_momentum, 0);
    assert_eq!(bs.shells[1].angular_momentum, 1);
}

// Scenario: SP shell is split into separate S and P shells
#[test]
fn sp_shell_is_split() {
    let bs = parse(LI_SP).expect("should succeed");
    assert_eq!(bs.shells.len(), 2);
    assert_eq!(bs.shells[0].angular_momentum, 0);
    assert_eq!(bs.shells[1].angular_momentum, 1);
    // Both shells share the same exponents
    let exp = &[16.1195750_f64, 2.9362007, 0.7946505];
    for (actual, expected) in bs.shells[0].exponents.iter().zip(exp.iter()) {
        assert!((actual - expected).abs() < 1e-6);
    }
    for (actual, expected) in bs.shells[1].exponents.iter().zip(exp.iter()) {
        assert!((actual - expected).abs() < 1e-6);
    }
    // S shell gets first coefficient vector
    assert!((bs.shells[0].coefficients[0] - 0.1543290).abs() < 1e-6);
    // P shell gets second coefficient vector
    assert!((bs.shells[1].coefficients[0] - 0.2494820).abs() < 1e-6);
}

// Scenario: ECP data is ignored when electron shells are present
#[test]
fn ecp_data_is_ignored() {
    let bs = parse(CU_WITH_ECP).expect("should succeed");
    assert_eq!(bs.element, "Cu");
    assert_eq!(bs.shells.len(), 1);
}

// Scenario: File does not exist
#[test]
fn file_does_not_exist() {
    let result: Result<BasisSet<f64>, ParseError> =
        parse_basis(Err("No such file or directory (os error 2)".to_string()), to_real);
    assert!(matches!(result, Err(ParseError::IoError(_))));
}

// Scenario: File is not valid JSON
#[test]
fn file_is_not_valid_json() {
    assert!(matches!(parse("{ not valid json }"), Err(ParseError::InvalidJson(_))));
}

// Scenario: elements object contains two keys
#[test]
fn multiple_elements_error() {
    let content = r#"{"elements":{"1":{"electron_shells":[]},"2":{"electron_shells":[]}}}"#;
    assert!(matches!(parse(content), Err(ParseError::MultipleElements { found: 2 })));
}

// Scenario: elements object is empty
#[test]
fn empty_elements_object() {
    assert!(matches!(parse(r#"{"elements":{}}"#), Err(ParseError::NoElements)));
}

// Scenario: Atomic number key is not a number
#[test]
fn atomic_number_not_a_number() {
    let content = r#"{"elements":{"X":{"electron_shells":[]}}}"#;
    assert!(matches!(parse(content), Err(ParseError::InvalidAtomicNumber(s)) if s == "X"));
}

// Scenario: Atomic number key is zero
#[test]
fn atomic_number_zero() {
    let content = r#"{"elements":{"0":{"electron_shells":[]}}}"#;
    assert!(matches!(parse(content), Err(ParseError::InvalidAtomicNumber(s)) if s == "0"));
}

// Scenario: Atomic number key is out of range
#[test]
fn atomic_number_out_of_range() {
    let content = r#"{"elements":{"119":{"electron_shells":[]}}}"#;
    assert!(matches!(parse(content), Err(ParseError::InvalidAtomicNumber(s)) if s == "119"));
}

// Scenario: electron_shells key is absent
#[test]
fn electron_shells_absent() {
    assert!(matches!(parse(r#"{"elements":{"1":{}}}"#), Err(ParseError::NoElectronShells)));
}

// Scenario: electron_shells array is empty
#[test]
fn electron_shells_empty() {
    let content = r#"{"elements":{"1":{"electron_shells":[]}}}"#;
    assert!(matches!(parse(content), Err(ParseError::NoElectronShells)));
}

// Scenario: Shell has empty angular_momentum array
#[test]
fn empty_angular_momentum() {
    let content = r#"{"elements":{"1":{"electron_shells":[
        {"angular_momentum":[],"exponents":["1.0"],"coefficients":[["1.0"]]}
      ]}}}"#;
    assert!(matches!(parse(content), Err(ParseError::MalformedShell { index: 0, .. })));
}

// Scenario: SP shell has wrong number of coefficient vectors
#[test]
fn sp_shell_wrong_coefficient_count() {
    let content = r#"{"elements":{"1":{"electron_shells":[
        {"angular_momentum":[0,1],"exponents":["1.0","2.0"],
         "coefficients":[["0.5","0.5"]]}
      ]}}}"#;
    assert!(matches!(parse(content), Err(ParseError::MalformedShell { index: 0, .. })));
}

// Scenario: Coefficient vector length does not match exponent count
#[test]
fn coefficient_length_mismatch() {
    let content = r#"{"elements":{"1":{"electron_shells":[
        {"angular_momentum":[0],"exponents":["1.0","2.0","3.0"],
         "coefficients":[["0.5","0.5"]]}
      ]}}}"#;
    assert!(matches!(parse(content), Err(ParseError::MalformedShell { index: 0, .. })));
}

// Scenario: Exponent string cannot be parsed as f64
#[test]
fn unparseable_exponent() {
    let content = r#"{"elements":{"1":{"electron_shells":[
        {"angular_momentum":[0],"exponents":["abc"],"coefficients":[["1.0"]]}
      ]}}}"#;
    assert!(matches!(parse(content), Err(ParseError::MalformedShell { index: 0, .. })));
}

// Scenario: Coefficient string cannot be parsed as f64
#[test]
fn unparseable_coefficient() {
    let content = r#"{"elements":{"1":{"electron_shells":[
        {"angular_momentum":[0],"exponents":["1.0"],"coefficients":[["abc"]]}
      ]}}}"#;
    assert!(matches!(parse(content), Err(ParseError::MalformedShell { index: 0, .. })));
}

// Scenario: Error report identifies the correct shell index
#[test]
fn error_identifies_correct_shell_index() {
    let content = r#"{"elements":{"1":{"electron_shells":[
        {"angular_momentum":[0],"exponents":["1.0"],"coefficients":[["0.5"]]},
        {"angular_momentum":[0],"exponents":["bad"],"coefficients":[["0.5"]]}
      ]}}}"#;
    assert!(matches!(parse(content), Err(ParseError::MalformedShell { index: 1, .. })));
}

// ==========================================================================
// load_basis tests
// ==========================================================================

/// Loads in the world, in place of files and service.
fn load_in(
    world: &mut World,
    element: &str,
    basis: &str,
    base: &str,
) -> Result<BasisSet<f64>, LoadError> {
    let world = RefCell::new(world);
    load_basis_impl(
        element,
        basis,
        base,
        ROOT,
        |plan: &FetchPlan| carry_out(&mut world.borrow_mut(), plan),
        |plan: &FetchPlan| {
            world.borrow().files.get(&path_of(plan)).cloned().ok_or("No such file".to_string())
        },
        to_real,
    )
}

// Scenario: load_basis fetches and parses successfully
#[test]
fn load_basis_success() {
    let mut world =
        World::serving(ROOT, "/api/basis/sto-3g/format/qcschema?elements=H", 200, H_1S);
    let result = load_in(&mut world, "H", "sto-3g", SERVER);
    let bs = result.expect("should succeed");
    assert_eq!(bs.element, "H");
    assert_eq!(bs.shells.len(), 1);
}

// Scenario: load_basis propagates a fetch error
#[test]
fn load_basis_propagates_fetch_error() {
    let mut world = World::serving(
        ROOT,
        "/api/basis/unknown-basis/format/qcschema?elements=H",
        404,
        "",
    );
    let result = load_in(&mut world, "H", "unknown-basis", SERVER);
    assert!(matches!(result, Err(LoadError::Fetch(BseError::UnknownBasisSet(_)))));
}

// Scenario: load_basis propagates a parse error
// The kept file is valid JSON, so it is used, but it holds no electron shells.
#[test]
fn load_basis_propagates_parse_error() {
    let mut world = World::new(ROOT);
    world.make_directories("/tmp/cache/sto-3g").unwrap();
    world.write("/tmp/cache/sto-3g/H.json", r#"{"elements":{"1":{}}}"#).unwrap();

    let result = load_in(&mut world, "H", "sto-3g", "http://localhost:1");
    assert!(matches!(result, Err(LoadError::Parse(_))));
}

// ==========================================================================
// Further cases
// ==========================================================================

fn text(s: &str) -> Json {
    Json { kind: JsonKind::Text(s.to_string()), shown: format!("String({:?})", s) }
}

fn number(n: u64) -> Json {
    Json { kind: JsonKind::Number { unsigned: Some(n) }, shown: format!("Number({})", n) }
}

fn array(items: Vec<Json>) -> Json {
    Json { kind: JsonKind::Array(items), shown: "Array [..]".to_string() }
}

fn object(members: Vec<(&str, Json)>) -> Json {
    Json {
        kind: JsonKind::Object(members.into_iter().map(|(k, v)| (k.to_string(), v)).collect()),
        shown: "Object {..}".to_string(),
    }
}

fn reason_of(result: Result<BasisSet<f64>, ParseError>) -> String {
    match result {
        Err(ParseError::MalformedShell { reason, .. }) => reason,
        other => panic!("expected a malformed shell, got {:?}", other),
    }
}

#[test]
fn parsed_values_are_exact() {
    let bs = parse(LI_SP).expect("should succeed");
    assert_eq!(bs.element, "Li");
    assert_eq!(bs.atomic_number, 3);
    assert_eq!(bs.shells[0].exponents, vec![16.1195750, 2.9362007, 0.7946505]);
    assert_eq!(bs.shells[1].exponents, vec![16.1195750, 2.9362007, 0.7946505]);
    assert_eq!(bs.shells[0].coefficients, vec![0.1543290, 0.5353281, 0.4446345]);
    assert_eq!(bs.shells[1].coefficients, vec![0.2494820, 0.8657560, 0.0]);
}

#[test]
fn shells_of_all_entries_follow_each_other() {
    let content = r#"{"elements":{"8":{"electron_shells":[
        {"angular_momentum":[0],"exponents":["1.0"],"coefficients":[["0.5"]]},
        {"angular_momentum":[0,1,2],"exponents":["2.0","3.0"],
         "coefficients":[["0.1","0.2"],["0.3","0.4"],["0.5","0.6"]]},
        {"angular_momentum":[3],"exponents":["4.0"],"coefficients":[["0.7"]]}
      ]}}}"#;
    let bs = parse(content).expect("should succeed");
    assert_eq!(bs.element, "O");
    let momenta: Vec<u32> = bs.shells.iter().map(|s| s.angular_momentum).collect();
    assert_eq!(momenta, vec![0, 0, 1, 2, 3]);
    assert_eq!(bs.shells[3].exponents, vec![2.0, 3.0]);
    assert_eq!(bs.shells[3].coefficients, vec![0.5, 0.6]);
}

#[test]
fn reasons_say_what_is_wrong() {
    let shell = |body: &str| {
        format!(r#"{{"elements":{{"1":{{"electron_shells":[{{{}}}]}}}}}}"#, body)
    };
    assert_eq!(
        reason_of(parse(&shell(r#""exponents":["1.0"],"coefficients":[["1.0"]]"#))),
        "missing or invalid angular_momentum"
    );
    assert_eq!(
        reason_of(parse(&shell(
            r#""angular_momentum":[],"exponents":["1.0"],"coefficients":[["1.0"]]"#
        ))),
        "angular_momentum is empty"
    );
    assert_eq!(
        reason_of(parse(&shell(
            r#""angular_momentum":[-1],"exponents":["1.0"],"coefficients":[["1.0"]]"#
        ))),
        "angular_momentum entry Number(-1) is not a non-negative integer"
    );
    assert_eq!(
        reason_of(parse(&shell(r#""angular_momentum":[0],"coefficients":[["1.0"]]"#))),
        "missing or invalid exponents"
    );
    assert_eq!(
        reason_of(parse(&shell(
            r#""angular_momentum":[0],"exponents":[1.5],"coefficients":[["1.0"]]"#
        ))),
        "exponent Number(1.5) is not a string"
    );
    assert_eq!(
        reason_of(parse(&shell(
            r#""angular_momentum":[0],"exponents":["abc"],"coefficients":[["1.0"]]"#
        ))),
        "cannot parse exponent \"abc\" as f64"
    );
    assert_eq!(
        reason_of(parse(&shell(r#""angular_momentum":[0],"exponents":["1.0"]"#))),
        "missing or invalid coefficients"
    );
    assert_eq!(
        reason_of(parse(&shell(
            r#""angular_momentum":[0,1],"exponents":["1.0"],"coefficients":[["1.0"]]"#
        ))),
        "expected 2 coefficient vector(s) to match angular_momentum, found 1"
    );
    assert_eq!(
        reason_of(parse(&shell(
            r#""angular_momentum":[0],"exponents":["1.0"],"coefficients":["1.0"]"#
        ))),
        "coefficient set is not an array"
    );
    assert_eq!(
        reason_of(parse(&shell(
            r#""angular_momentum":[0],"exponents":["1.0","2.0"],"coefficients":[["1.0"]]"#
        ))),
        "coefficient vector has 1 values but there are 2 exponents"
    );
    assert_eq!(
        reason_of(parse(&shell(
            r#""angular_momentum":[0],"exponents":["1.0"],"coefficients":[[null]]"#
        ))),
        "coefficient Null is not a string"
    );
    assert_eq!(
        reason_of(parse(&shell(
            r#""angular_momentum":[0],"exponents":["1.0"],"coefficients":[["x y"]]"#
        ))),
        "cannot parse coefficient \"x y\" as f64"
    );
}

#[test]
fn first_fault_of_a_shell_decides() {
    // A bad exponent comes before a bad vector of coefficients.
    let content = r#"{"elements":{"1":{"electron_shells":[
        {"angular_momentum":[0],"exponents":["bad"],"coefficients":[7]}
      ]}}}"#;
    assert_eq!(reason_of(parse(content)), "cannot parse exponent \"bad\" as f64");
    // A bad angular momentum comes before missing exponents.
    let content = r#"{"elements":{"1":{"electron_shells":[
        {"angular_momentum":["s"],"coefficients":[["1.0"]]}
      ]}}}"#;
    assert_eq!(
        reason_of(parse(content)),
        "angular_momentum entry String(\"s\") is not a non-negative integer"
    );
}

#[test]
fn elements_must_be_an_object() {
    assert_eq!(parse(r#"{"elements":[1]}"#), Err(ParseError::NoElements));
    assert_eq!(parse(r#"{"other":{}}"#), Err(ParseError::NoElements));
    assert_eq!(parse(r#"[1, 2]"#), Err(ParseError::NoElements));
    assert_eq!(
        parse(r#"{"elements":{"1":{"electron_shells":{}}}}"#),
        Err(ParseError::NoElectronShells)
    );
}

#[test]
fn atomic_numbers_from_1_to_118() {
    assert_eq!(atomic_number("1"), Ok(1));
    assert_eq!(atomic_number("118"), Ok(118));
    assert_eq!(atomic_number("+7"), Ok(7));
    assert_eq!(atomic_number("119"), Err(ParseError::InvalidAtomicNumber("119".to_string())));
    assert_eq!(atomic_number("-1"), Err(ParseError::InvalidAtomicNumber("-1".to_string())));
    assert_eq!(atomic_number(" 1"), Err(ParseError::InvalidAtomicNumber(" 1".to_string())));
    assert_eq!(atomic_number(""), Err(ParseError::InvalidAtomicNumber("".to_string())));
    assert_eq!(
        atomic_number("4294967297"),
        Err(ParseError::InvalidAtomicNumber("4294967297".to_string()))
    );
}

#[test]
fn basis_of_a_value_built_by_hand() {
    let shell = object(vec![
        ("angular_momentum", array(vec![number(2)])),
        ("exponents", array(vec![text("1.5"), text("2.5")])),
        ("coefficients", array(vec![array(vec![text("0.25"), text("0.75")])])),
    ]);
    let json = object(vec![(
        "elements",
        object(vec![("26", object(vec![("electron_shells", array(vec![shell]))]))]),
    )]);
    let bs: BasisSet<f64> = parse_basis_json(&json, &to_real).expect("should succeed");
    assert_eq!(bs.element, "Fe");
    assert_eq!(bs.atomic_number, 26);
    assert_eq!(bs.shells.len(), 1);
    assert_eq!(bs.shells[0].angular_momentum, 2);
    assert_eq!(bs.shells[0].exponents, vec![1.5, 2.5]);
    assert_eq!(bs.shells[0].coefficients, vec![0.25, 0.75]);
}

#[test]
fn angular_momentum_is_cut_to_32_bits() {
    let shell = object(vec![
        ("angular_momentum", array(vec![number((1u64 << 32) + 3)])),
        ("exponents", array(vec![text("1.5")])),
        ("coefficients", array(vec![array(vec![text("0.25")])])),
    ]);
    let shells = parse_shell(4, &shell, &to_real).expect("should succeed");
    assert_eq!(shells.len(), 1);
    assert_eq!(shells[0].angular_momentum, 3);
}

#[test]
fn reader_of_reals_is_the_callers() {
    // A reader that knows one number only.
    let one = |s: &String| -> Option<i32> { if s == "one" { Some(1) } else { None } };
    let content = r#"{"elements":{"2":{"electron_shells":[
        {"angular_momentum":[0],"exponents":["one"],"coefficients":[["one"]]}
      ]}}}"#;
    let bs = parse_basis(Ok(content.to_string()), one).expect("should succeed");
    assert_eq!(bs.element, "He");
    assert_eq!(bs.shells[0].exponents, vec![1]);
    let content = content.replace("[[\"one\"]]", "[[\"1\"]]");
    assert_eq!(
        parse_basis(Ok(content), one),
        Err(ParseError::MalformedShell {
            index: 0,
            reason: "cannot parse coefficient \"1\" as f64".to_string()
        })
    );
}

#[test]
fn elements_field_is_empty_cases() {
    let empty = |content: &str| {
        let p = plan("H", "sto-3g", "http://localhost:1", "root").unwrap();
        check_body(content, &p)
            == Err(BseError::ElementNotInBasisSet {
                element: "H".to_string(),
                basis_name: "sto-3g".to_string(),
            })
    };
    assert!(empty(r#"{}"#));
    assert!(empty(r#"{"elements":{}}"#));
    assert!(empty(r#"{"elements":[]}"#));
    assert!(empty(r#"[]"#));
    assert!(!empty(r#"{"elements":[1]}"#));
    assert!(!empty(r#"{"elements":{"1":{}}}"#));
    assert!(!empty(r#"{"elements":null}"#));
    assert!(!empty(r#"{"elements":"x"}"#));
    assert!(elements_field_is_empty(&object(vec![])));
    assert!(elements_field_is_empty(&object(vec![("elements", array(vec![]))])));
    assert!(!elements_field_is_empty(&object(vec![("elements", text(""))])));
}

#[test]
fn status_of_the_answer() {
    assert_eq!(check_status(200, "sto-3g"), Ok(()));
    assert_eq!(
        check_status(404, "6-31g"),
        Err(BseError::UnknownBasisSet("6-31g".to_string()))
    );
    assert_eq!(
        check_status(500, "sto-3g"),
        Err(BseError::NetworkError("unexpected HTTP status 500".to_string()))
    );
    assert_eq!(
        check_status(0, "sto-3g"),
        Err(BseError::NetworkError("unexpected HTTP status 0".to_string()))
    );
    assert_eq!(
        check_status(65535, "sto-3g"),
        Err(BseError::NetworkError("unexpected HTTP status 65535".to_string()))
    );
}

#[test]
fn fetch_basis_uses_the_service_and_the_default_directory() {
    let p = fetch_basis("fe", "6-31G*").expect("should succeed");
    assert_eq!(
        p,
        FetchPlan {
            element: "Fe".to_string(),
            basis: "6-31g*".to_string(),
            cache_root: "data/basis".to_string(),
            file_name: "Fe.json".to_string(),
            url: "https://www.basissetexchange.org/api/basis/6-31g*/format/qcschema?elements=Fe"
                .to_string(),
        }
    );
    assert_eq!(fetch_basis("H", ""), Err(BseError::InvalidBasisSetName("".to_string())));
    assert_eq!(fetch_basis("Hx", "sto-3g"), Err(BseError::InvalidElement("Hx".to_string())));
    // The name of the basis set is looked at before the element.
    assert_eq!(fetch_basis("Hx", ""), Err(BseError::InvalidBasisSetName("".to_string())));
}

#[test]
fn elements_of_the_periodic_table() {
    assert_eq!(element_symbol(1), "H");
    assert_eq!(element_symbol(2), "He");
    assert_eq!(element_symbol(26), "Fe");
    assert_eq!(element_symbol(92), "U");
    assert_eq!(element_symbol(118), "Og");
    assert!(is_element("H"));
    assert!(is_element("Og"));
    assert!(!is_element("h"));
    assert!(!is_element("HE"));
    assert!(!is_element(""));
    assert!(!is_element("Xx"));
    let mut count = 0;
    for z in 1..=118 {
        assert!(is_element(element_symbol(z)));
        count += 1;
    }
    assert_eq!(count, 118);
}

#[test]
fn element_symbols_are_put_in_title_case() {
    assert_eq!(normalize_element("h"), Ok("H".to_string()));
    assert_eq!(normalize_element("FE"), Ok("Fe".to_string()));
    assert_eq!(normalize_element("og"), Ok("Og".to_string()));
    assert_eq!(normalize_element("cL"), Ok("Cl".to_string()));
    assert_eq!(normalize_element("Xx"), Err(BseError::InvalidElement("Xx".to_string())));
    assert_eq!(normalize_element(" h"), Err(BseError::InvalidElement(" h".to_string())));
    assert_eq!(normalize_element(""), Err(BseError::InvalidElement("".to_string())));
}

#[test]
fn errors_in_words() {
    assert_eq!(
        BseError::InvalidElement("X\"x".to_string()).message(),
        "invalid element: \"X\\\"x\""
    );
    assert_eq!(
        BseError::InvalidBasisSetName("".to_string()).message(),
        "invalid basis set name: \"\""
    );
    assert_eq!(
        BseError::ElementNotInBasisSet {
            element: "Au".to_string(),
            basis_name: "sto-3g".to_string()
        }
        .message(),
        "element Au not found in basis set sto-3g"
    );
    assert_eq!(
        BseError::UnknownBasisSet("nope".to_string()).message(),
        "unknown basis set: \"nope\""
    );
    assert_eq!(BseError::NetworkError("down".to_string()).message(), "network error: down");
    assert_eq!(BseError::IoError("full".to_string()).message(), "I/O error: full");
    assert_eq!(
        BseError::InvalidResponse("eof".to_string()).message(),
        "invalid response: eof"
    );
    assert_eq!(ParseError::IoError("gone".to_string()).message(), "I/O error: gone");
    assert_eq!(ParseError::InvalidJson("eof".to_string()).message(), "invalid JSON: eof");
    assert_eq!(
        ParseError::MultipleElements { found: 12 }.message(),
        "expected 1 element, found 12"
    );
    assert_eq!(ParseError::NoElements.message(), "elements object is absent or empty");
    assert_eq!(
        ParseError::InvalidAtomicNumber("X".to_string()).message(),
        "invalid atomic number: \"X\""
    );
    assert_eq!(ParseError::NoElectronShells.message(), "no electron shells found");
    assert_eq!(
        ParseError::MalformedShell { index: 305, reason: "bad".to_string() }.message(),
        "shell 305: bad"
    );
    assert_eq!(
        LoadError::Fetch(BseError::NetworkError("down".to_string())).message(),
        "fetch error: network error: down"
    );
    assert_eq!(
        LoadError::Parse(ParseError::NoElements).message(),
        "parse error: elements object is absent or empty"
    );
}

#[test]
fn numbers_below_two_to_the_32() {
    assert_eq!(parse_u32("0"), Some(0));
    assert_eq!(parse_u32("007"), Some(7));
    assert_eq!(parse_u32("+42"), Some(42));
    assert_eq!(parse_u32("4294967295"), Some(u32::MAX));
    assert_eq!(parse_u32("4294967296"), None);
    assert_eq!(parse_u32("99999999999999999999999999"), None);
    assert_eq!(parse_u32(""), None);
    assert_eq!(parse_u32("+"), None);
    assert_eq!(parse_u32("++1"), None);
    assert_eq!(parse_u32("-1"), None);
    assert_eq!(parse_u32("-0"), None);
    assert_eq!(parse_u32("1 "), None);
    assert_eq!(parse_u32("1_0"), None);
    assert_eq!(parse_u32("٣"), None);
    assert_eq!(parse_u32("1e3"), None);
    for text in ["0", "+0", "12", "0012", "4294967295", "4294967296", "", "+", "a", "1a", " 1", "-", "+-1"] {
        assert_eq!(parse_u32(text), text.parse::<u32>().ok(), "{:?}", text);
    }
}

#[test]
fn decimal_numerals() {
    assert_eq!(decimal(0), "0");
    assert_eq!(decimal(9), "9");
    assert_eq!(decimal(10), "10");
    assert_eq!(decimal(1234567890), "1234567890");
    assert_eq!(decimal(u128::MAX), u128::MAX.to_string());
    assert_eq!(signed_decimal(0), "0");
    assert_eq!(signed_decimal(-1), "-1");
    assert_eq!(signed_decimal(i64::MIN), i64::MIN.to_string());
    assert_eq!(signed_decimal(i64::MAX), i64::MAX.to_string());
    assert_eq!(title_case("hELLO"), "Hello");
    assert_eq!(title_case(""), "");
    assert_eq!(title_case("ßa"), "SSa");
    assert_eq!(join2("a", "b"), "ab");
    assert_eq!(join3("a", "", "c"), "ac");
}

#[test]
fn load_maps_every_failure() {
    let never = |_: &FetchPlan| -> Result<String, String> { panic!("the file was read") };
    let none = |_: &FetchPlan| -> Result<(), BseError> { panic!("the plan was carried out") };
    // No plan: nothing is fetched or read.
    let result: Result<BasisSet<f64>, LoadError> = load_basis("Xx", "sto-3g", none, never, to_real);
    assert_eq!(result, Err(LoadError::Fetch(BseError::InvalidElement("Xx".to_string()))));
    // The fetch fails: nothing is read.
    let down = |_: &FetchPlan| Err(BseError::NetworkError("down".to_string()));
    let result: Result<BasisSet<f64>, LoadError> = load_basis("H", "sto-3g", down, never, to_real);
    assert_eq!(result, Err(LoadError::Fetch(BseError::NetworkError("down".to_string()))));
    // The file cannot be read.
    let done = |plan: &FetchPlan| {
        assert_eq!(plan.file_name, "H.json");
        assert_eq!(plan.cache_root, "data/basis");
        Ok(())
    };
    let gone = |_: &FetchPlan| Err("gone".to_string());
    let result: Result<BasisSet<f64>, LoadError> = load_basis("h", "STO-3G", done, gone, to_real);
    assert_eq!(result, Err(LoadError::Parse(ParseError::IoError("gone".to_string()))));
    // The file holds a basis set.
    let held = |_: &FetchPlan| Ok(H_1S.to_string());
    let basis: BasisSet<f64> = load_basis("h", "STO-3G", done, held, to_real).unwrap();
    assert_eq!(basis.element, "H");
    assert_eq!(basis.shells[0].exponents, vec![3.4252509, 0.6239137, 0.1688554]);
}
