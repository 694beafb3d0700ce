//! Basis-set definitions of single elements, and what can go wrong while one
//! is fetched or read.

use crate::document::{json_document, parse_json, Json, JsonKind};
use crate::elements::{is_element, is_element_name};
use crate::text::{
    decimal, decimal_of, join2, join3, lowercase, lowercase_of, quoted, quoted_of, result_view,
    title_case, title_case_of,
};
use vstd::prelude::*;

verus! {

/// Why a basis-set file could not be obtained.
#[derive(Debug, Clone, PartialEq)]
pub enum BseError {
    InvalidElement(String),
    InvalidBasisSetName(String),
    ElementNotInBasisSet { element: String, basis_name: String },
    UnknownBasisSet(String),
    NetworkError(String),
    IoError(String),
    InvalidResponse(String),
}

/// Why a basis-set file could not be read.
#[derive(Debug, Clone, PartialEq)]
pub enum ParseError {
    IoError(String),
    InvalidJson(String),
    MultipleElements { found: usize },
    NoElements,
    InvalidAtomicNumber(String),
    NoElectronShells,
    MalformedShell { index: usize, reason: String },
}

/// Why the basis set of an element could not be loaded.
#[derive(Debug, Clone, PartialEq)]
pub enum LoadError {
    Fetch(BseError),
    Parse(ParseError),
}

/// One contracted shell: an angular momentum and its primitives, each an
/// exponent with a contraction coefficient. `T` is the type of a real number.
#[derive(Debug, Clone, PartialEq)]
pub struct ElectronShell<T> {
    pub angular_momentum: u32,
    pub exponents: Vec<T>,
    pub coefficients: Vec<T>,
}

/// The shells of one element, in the order of its definition.
#[derive(Debug, Clone, PartialEq)]
pub struct BasisSet<T> {
    pub element: String,
    pub atomic_number: u32,
    pub shells: Vec<ElectronShell<T>>,
}

impl<T> ElectronShell<T> {
    /// Every exponent has its coefficient.
    pub open spec fn wf(&self) -> bool {
        self.coefficients@.len() == self.exponents@.len()
    }
}

/// A `BseError` with its texts as sequences of characters.
pub enum BseErrorView {
    InvalidElement(Seq<char>),
    InvalidBasisSetName(Seq<char>),
    ElementNotInBasisSet { element: Seq<char>, basis_name: Seq<char> },
    UnknownBasisSet(Seq<char>),
    NetworkError(Seq<char>),
    IoError(Seq<char>),
    InvalidResponse(Seq<char>),
}

/// A `ParseError` with its texts as sequences of characters.
pub enum ParseErrorView {
    IoError(Seq<char>),
    InvalidJson(Seq<char>),
    MultipleElements { found: usize },
    NoElements,
    InvalidAtomicNumber(Seq<char>),
    NoElectronShells,
    MalformedShell { index: usize, reason: Seq<char> },
}

/// A `LoadError` with its texts as sequences of characters.
pub enum LoadErrorView {
    Fetch(BseErrorView),
    Parse(ParseErrorView),
}

impl View for BseError {
    type V = BseErrorView;

    open spec fn view(&self) -> BseErrorView {
        match self {
            BseError::InvalidElement(s) => BseErrorView::InvalidElement(s@),
            BseError::InvalidBasisSetName(s) => BseErrorView::InvalidBasisSetName(s@),
            BseError::ElementNotInBasisSet { element, basis_name } => {
                BseErrorView::ElementNotInBasisSet { element: element@, basis_name: basis_name@ }
            },
            BseError::UnknownBasisSet(s) => BseErrorView::UnknownBasisSet(s@),
            BseError::NetworkError(s) => BseErrorView::NetworkError(s@),
            BseError::IoError(s) => BseErrorView::IoError(s@),
            BseError::InvalidResponse(s) => BseErrorView::InvalidResponse(s@),
        }
    }
}

impl View for ParseError {
    type V = ParseErrorView;

    open spec fn view(&self) -> ParseErrorView {
        match self {
            ParseError::IoError(s) => ParseErrorView::IoError(s@),
            ParseError::InvalidJson(s) => ParseErrorView::InvalidJson(s@),
            ParseError::MultipleElements { found } => ParseErrorView::MultipleElements {
                found: *found,
            },
            ParseError::NoElements => ParseErrorView::NoElements,
            ParseError::InvalidAtomicNumber(s) => ParseErrorView::InvalidAtomicNumber(s@),
            ParseError::NoElectronShells => ParseErrorView::NoElectronShells,
            ParseError::MalformedShell { index, reason } => ParseErrorView::MalformedShell {
                index: *index,
                reason: reason@,
            },
        }
    }
}

impl View for LoadError {
    type V = LoadErrorView;

    open spec fn view(&self) -> LoadErrorView {
        match self {
            LoadError::Fetch(e) => LoadErrorView::Fetch(e@),
            LoadError::Parse(e) => LoadErrorView::Parse(e@),
        }
    }
}

impl BseErrorView {
    /// The error in words.
    pub open spec fn message(self) -> Seq<char> {
        match self {
            BseErrorView::InvalidElement(s) => "invalid element: "@ + quoted_of(s),
            BseErrorView::InvalidBasisSetName(s) => "invalid basis set name: "@ + quoted_of(s),
            BseErrorView::ElementNotInBasisSet { element, basis_name } => "element "@ + element
                + " not found in basis set "@ + basis_name,
            BseErrorView::UnknownBasisSet(s) => "unknown basis set: "@ + quoted_of(s),
            BseErrorView::NetworkError(s) => "network error: "@ + s,
            BseErrorView::IoError(s) => "I/O error: "@ + s,
            BseErrorView::InvalidResponse(s) => "invalid response: "@ + s,
        }
    }
}

impl ParseErrorView {
    /// The error in words.
    pub open spec fn message(self) -> Seq<char> {
        match self {
            ParseErrorView::IoError(s) => "I/O error: "@ + s,
            ParseErrorView::InvalidJson(s) => "invalid JSON: "@ + s,
            ParseErrorView::MultipleElements { found } => "expected 1 element, found "@
                + decimal_of(found as nat),
            ParseErrorView::NoElements => "elements object is absent or empty"@,
            ParseErrorView::InvalidAtomicNumber(s) => "invalid atomic number: "@ + quoted_of(s),
            ParseErrorView::NoElectronShells => "no electron shells found"@,
            ParseErrorView::MalformedShell { index, reason } => "shell "@ + decimal_of(
                index as nat,
            ) + ": "@ + reason,
        }
    }
}

impl LoadErrorView {
    /// The error in words.
    pub open spec fn message(self) -> Seq<char> {
        match self {
            LoadErrorView::Fetch(e) => "fetch error: "@ + e.message(),
            LoadErrorView::Parse(e) => "parse error: "@ + e.message(),
        }
    }
}

impl BseError {
    /// The error in words.
    pub fn message(&self) -> (text: String)
        ensures
            text@ == self@.message(),
    {
        match self {
            BseError::InvalidElement(s) => join2("invalid element: ", quoted(s.as_str()).as_str()),
            BseError::InvalidBasisSetName(s) => join2(
                "invalid basis set name: ",
                quoted(s.as_str()).as_str(),
            ),
            BseError::ElementNotInBasisSet { element, basis_name } => {
                let mut text = join3("element ", element.as_str(), " not found in basis set ");
                text.append(basis_name.as_str());
                text
            },
            BseError::UnknownBasisSet(s) => join2(
                "unknown basis set: ",
                quoted(s.as_str()).as_str(),
            ),
            BseError::NetworkError(s) => join2("network error: ", s.as_str()),
            BseError::IoError(s) => join2("I/O error: ", s.as_str()),
            BseError::InvalidResponse(s) => join2("invalid response: ", s.as_str()),
        }
    }
}

impl ParseError {
    /// The error in words.
    pub fn message(&self) -> (text: String)
        ensures
            text@ == self@.message(),
    {
        match self {
            ParseError::IoError(s) => join2("I/O error: ", s.as_str()),
            ParseError::InvalidJson(s) => join2("invalid JSON: ", s.as_str()),
            ParseError::MultipleElements { found } => join2(
                "expected 1 element, found ",
                decimal(*found as u128).as_str(),
            ),
            ParseError::NoElements => String::from_str("elements object is absent or empty"),
            ParseError::InvalidAtomicNumber(s) => join2(
                "invalid atomic number: ",
                quoted(s.as_str()).as_str(),
            ),
            ParseError::NoElectronShells => String::from_str("no electron shells found"),
            ParseError::MalformedShell { index, reason } => {
                let mut text = join3("shell ", decimal(*index as u128).as_str(), ": ");
                text.append(reason.as_str());
                text
            },
        }
    }
}

impl LoadError {
    /// The error in words.
    pub fn message(&self) -> (text: String)
        ensures
            text@ == self@.message(),
    {
        match self {
            LoadError::Fetch(e) => join2("fetch error: ", e.message().as_str()),
            LoadError::Parse(e) => join2("parse error: ", e.message().as_str()),
        }
    }
}

/// The element symbol in title case if it names an element, the symbol as
/// it was given if it does not.
pub open spec fn normalize_element_spec(element: Seq<char>) -> Result<Seq<char>, BseErrorView> {
    if is_element_name(title_case_of(element)) {
        Ok(title_case_of(element))
    } else {
        Err(BseErrorView::InvalidElement(element))
    }
}

/// Puts an element symbol in title case and checks it against the periodic
/// table.
pub fn normalize_element(element: &str) -> (result: Result<String, BseError>)
    ensures
        result_view(result) == normalize_element_spec(element@),
{
    let normalized = title_case(element);
    if is_element(normalized.as_str()) {
        Ok(normalized)
    } else {
        Err(BseError::InvalidElement(String::from_str(element)))
    }
}

/// Where the basis-set service is reached.
pub const BSE_BASE_URL: &'static str = "https://www.basissetexchange.org";

/// The directory under which basis-set files are kept.
pub const DEFAULT_CACHE_ROOT: &'static str = "data/basis";

/// Where the basis set of one element is kept and where it is fetched from.
#[derive(Debug, Clone, PartialEq)]
pub struct FetchPlan {
    /// The element symbol, in title case.
    pub element: String,
    /// The name of the basis set, in lower case.
    pub basis: String,
    /// The directory of all basis-set files.
    pub cache_root: String,
    /// The name of the file, which lies in the directory `basis` under
    /// `cache_root`.
    pub file_name: String,
    /// The address of the basis set at the service.
    pub url: String,
}

/// A `FetchPlan` with its texts as sequences of characters.
pub struct FetchPlanView {
    pub element: Seq<char>,
    pub basis: Seq<char>,
    pub cache_root: Seq<char>,
    pub file_name: Seq<char>,
    pub url: Seq<char>,
}

impl View for FetchPlan {
    type V = FetchPlanView;

    open spec fn view(&self) -> FetchPlanView {
        FetchPlanView {
            element: self.element@,
            basis: self.basis@,
            cache_root: self.cache_root@,
            file_name: self.file_name@,
            url: self.url@,
        }
    }
}

/// The plan for an element and a basis set: none for an empty name of the
/// basis set or for a symbol that names no element; else the file
/// `<Element>.json` and the address
/// `<base>/api/basis/<basis>/format/qcschema?elements=<Element>`.
pub open spec fn fetch_plan_spec(
    element: Seq<char>,
    basis_name: Seq<char>,
    base_url: Seq<char>,
    cache_root: Seq<char>,
) -> Result<FetchPlanView, BseErrorView> {
    if basis_name.len() == 0 {
        Err(BseErrorView::InvalidBasisSetName(basis_name))
    } else {
        match normalize_element_spec(element) {
            Err(error) => Err(error),
            Ok(symbol) => Ok(
                FetchPlanView {
                    element: symbol,
                    basis: lowercase_of(basis_name),
                    cache_root,
                    file_name: symbol + ".json"@,
                    url: base_url + "/api/basis/"@ + lowercase_of(basis_name)
                        + "/format/qcschema?elements="@ + symbol,
                },
            ),
        }
    }
}

/// Plans the fetch of the basis set `basis_name` for `element` from the
/// service at `base_url`, with the files kept under `cache_root`.
pub fn fetch_basis_impl(element: &str, basis_name: &str, base_url: &str, cache_root: &str) -> (result:
    Result<FetchPlan, BseError>)
    ensures
        result_view(result) == fetch_plan_spec(element@, basis_name@, base_url@, cache_root@),
{
    if basis_name.is_empty() {
        return Err(BseError::InvalidBasisSetName(String::from_str(basis_name)));
    }
    let symbol = match normalize_element(element) {
        Ok(symbol) => symbol,
        Err(error) => {
            return Err(error);
        },
    };
    let basis = lowercase(basis_name);
    let file_name = join2(symbol.as_str(), ".json");
    let mut url = join3(base_url, "/api/basis/", basis.as_str());
    url.append("/format/qcschema?elements=");
    url.append(symbol.as_str());
    Ok(FetchPlan { element: symbol, basis, cache_root: String::from_str(cache_root), file_name, url })
}

/// Plans the fetch of the basis set `basis_name` for `element` from the
/// basis-set service, with the files kept under `data/basis`.
pub fn fetch_basis(element: &str, basis_name: &str) -> (result: Result<FetchPlan, BseError>)
    ensures
        result_view(result) == fetch_plan_spec(
            element@,
            basis_name@,
            BSE_BASE_URL@,
            DEFAULT_CACHE_ROOT@,
        ),
{
    fetch_basis_impl(element, basis_name, BSE_BASE_URL, DEFAULT_CACHE_ROOT)
}

/// A kept file can be used if it is not empty and holds a JSON text.
pub open spec fn cache_is_valid(content: Seq<char>) -> bool {
    content.len() > 0 && json_document(content) is Ok
}

/// Whether a kept file with this content can be used in place of a fetch.
pub fn is_valid_cache(content: &str) -> (valid: bool)
    ensures
        valid == cache_is_valid(content@),
{
    if content.is_empty() {
        false
    } else {
        parse_json(content).is_ok()
    }
}

/// Whether the answer of the service holds no element: it has no member
/// `elements`, or that member is an empty object or an empty array.
pub open spec fn elements_field_is_empty_spec(json: Json) -> bool {
    match json.member("elements"@) {
        None => true,
        Some(elements) => match elements.kind {
            JsonKind::Object(members) => members@.len() == 0,
            JsonKind::Array(items) => items@.len() == 0,
            _ => false,
        },
    }
}

/// Whether the answer of the service holds no element.
pub fn elements_field_is_empty(json: &Json) -> (empty: bool)
    ensures
        empty == elements_field_is_empty_spec(*json),
{
    match json.get("elements") {
        None => true,
        Some(elements) => match &elements.kind {
            JsonKind::Object(members) => members.len() == 0,
            JsonKind::Array(items) => items.len() == 0,
            _ => false,
        },
    }
}

/// What the status of the service's answer means: 200 is accepted, 404
/// says that the service does not know the basis set, any other status is a
/// network error.
pub open spec fn check_status_spec(status: u16, basis: Seq<char>) -> Result<(), BseErrorView> {
    if status == 404 {
        Err(BseErrorView::UnknownBasisSet(basis))
    } else if status == 200 {
        Ok(())
    } else {
        Err(BseErrorView::NetworkError("unexpected HTTP status "@ + decimal_of(status as nat)))
    }
}

/// Accepts or refuses the status of the service's answer.
pub fn check_status(status: u16, basis: &str) -> (result: Result<(), BseError>)
    ensures
        result_view(result) == check_status_spec(status, basis@),
{
    if status == 404 {
        Err(BseError::UnknownBasisSet(String::from_str(basis)))
    } else if status == 200 {
        Ok(())
    } else {
        Err(
            BseError::NetworkError(
                join2("unexpected HTTP status ", decimal(status as u128).as_str()),
            ),
        )
    }
}

/// What the body of the service's answer means: it must be a JSON text,
/// and one that holds an element.
pub open spec fn check_body_spec(body: Seq<char>, plan: FetchPlanView) -> Result<
    (),
    BseErrorView,
> {
    match json_document(body) {
        Err(words) => Err(BseErrorView::InvalidResponse(words)),
        Ok(json) => if elements_field_is_empty_spec(json) {
            Err(
                BseErrorView::ElementNotInBasisSet {
                    element: plan.element,
                    basis_name: plan.basis,
                },
            )
        } else {
            Ok(())
        },
    }
}

/// Accepts or refuses the body of the service's answer; an accepted body is
/// what the file of the plan is to hold.
pub fn check_body(body: &str, plan: &FetchPlan) -> (result: Result<(), BseError>)
    ensures
        result_view(result) == check_body_spec(body@, plan@),
{
    match parse_json(body) {
        Err(words) => Err(BseError::InvalidResponse(words)),
        Ok(json) => {
            if elements_field_is_empty(&json) {
                Err(
                    BseError::ElementNotInBasisSet {
                        element: plan.element.clone(),
                        basis_name: plan.basis.clone(),
                    },
                )
            } else {
                Ok(())
            }
        },
    }
}

/// What has happened last in the fetch of a basis set.
#[derive(Debug, PartialEq)]
pub enum FetchEvent {
    /// Nothing yet.
    Started,
    /// The file of the plan was read: its content, or nothing if it could
    /// not be read.
    CacheRead(Option<String>),
    /// The service was asked: the status of its answer, or the words of the
    /// error.
    Answered(Result<u16, String>),
    /// The body of the answer was read: the body, or the words of the error.
    BodyRead(Result<String, String>),
    /// The directory of the file was made, or it was not: then the words of
    /// the error.
    DirectoryMade(Result<(), String>),
    /// The body was written to the file, or it was not: then the words of
    /// the error.
    FileWritten(Result<(), String>),
}

/// What is to be done next in the fetch of a basis set.
#[derive(Debug, PartialEq)]
pub enum FetchAction {
    /// Read the file of the plan.
    ReadCache,
    /// Ask the service at the address of the plan.
    Request,
    /// Read the body of the answer.
    ReadBody,
    /// Make the directory of the file of the plan.
    MakeDirectory,
    /// Write the body of the answer to the file of the plan.
    WriteFile,
    /// Nothing more: the file of the plan holds the basis set, or the fetch
    /// has failed.
    Finish(Result<(), BseError>),
}

/// A `FetchEvent` with its texts as sequences of characters.
pub enum FetchEventView {
    Started,
    CacheRead(Option<Seq<char>>),
    Answered(Result<u16, Seq<char>>),
    BodyRead(Result<Seq<char>, Seq<char>>),
    DirectoryMade(Result<(), Seq<char>>),
    FileWritten(Result<(), Seq<char>>),
}

/// A `FetchAction` with its texts as sequences of characters.
pub enum FetchActionView {
    ReadCache,
    Request,
    ReadBody,
    MakeDirectory,
    WriteFile,
    Finish(Result<(), BseErrorView>),
}

impl View for FetchEvent {
    type V = FetchEventView;

    open spec fn view(&self) -> FetchEventView {
        match self {
            FetchEvent::Started => FetchEventView::Started,
            FetchEvent::CacheRead(content) => FetchEventView::CacheRead(
                match content {
                    Some(text) => Some(text@),
                    None => None,
                },
            ),
            FetchEvent::Answered(answer) => FetchEventView::Answered(
                match answer {
                    Ok(status) => Ok(*status),
                    Err(words) => Err(words@),
                },
            ),
            FetchEvent::BodyRead(body) => FetchEventView::BodyRead(
                match body {
                    Ok(text) => Ok(text@),
                    Err(words) => Err(words@),
                },
            ),
            FetchEvent::DirectoryMade(made) => FetchEventView::DirectoryMade(
                match made {
                    Ok(_) => Ok(()),
                    Err(words) => Err(words@),
                },
            ),
            FetchEvent::FileWritten(written) => FetchEventView::FileWritten(
                match written {
                    Ok(_) => Ok(()),
                    Err(words) => Err(words@),
                },
            ),
        }
    }
}

impl View for FetchAction {
    type V = FetchActionView;

    open spec fn view(&self) -> FetchActionView {
        match self {
            FetchAction::ReadCache => FetchActionView::ReadCache,
            FetchAction::Request => FetchActionView::Request,
            FetchAction::ReadBody => FetchActionView::ReadBody,
            FetchAction::MakeDirectory => FetchActionView::MakeDirectory,
            FetchAction::WriteFile => FetchActionView::WriteFile,
            FetchAction::Finish(end) => FetchActionView::Finish(result_view(*end)),
        }
    }
}

/// The next step of a fetch: the kept file is looked at first and used if
/// it is valid; else the service is asked, the status of its answer is
/// checked, then its body, and the body is written to the file. The first
/// failure ends the fetch: one of the network while the service is asked or
/// the body is read, one of the file system while the directory is made or
/// the file is written.
pub open spec fn next_action_spec(plan: FetchPlanView, event: FetchEventView) -> FetchActionView {
    match event {
        FetchEventView::Started => FetchActionView::ReadCache,
        FetchEventView::CacheRead(content) => match content {
            Some(text) => if cache_is_valid(text) {
                FetchActionView::Finish(Ok(()))
            } else {
                FetchActionView::Request
            },
            None => FetchActionView::Request,
        },
        FetchEventView::Answered(answer) => match answer {
            Err(words) => FetchActionView::Finish(Err(BseErrorView::NetworkError(words))),
            Ok(status) => match check_status_spec(status, plan.basis) {
                Err(error) => FetchActionView::Finish(Err(error)),
                Ok(_) => FetchActionView::ReadBody,
            },
        },
        FetchEventView::BodyRead(body) => match body {
            Err(words) => FetchActionView::Finish(Err(BseErrorView::NetworkError(words))),
            Ok(text) => match check_body_spec(text, plan) {
                Err(error) => FetchActionView::Finish(Err(error)),
                Ok(_) => FetchActionView::MakeDirectory,
            },
        },
        FetchEventView::DirectoryMade(made) => match made {
            Err(words) => FetchActionView::Finish(Err(BseErrorView::IoError(words))),
            Ok(_) => FetchActionView::WriteFile,
        },
        FetchEventView::FileWritten(written) => match written {
            Err(words) => FetchActionView::Finish(Err(BseErrorView::IoError(words))),
            Ok(_) => FetchActionView::Finish(Ok(())),
        },
    }
}

/// Says what is to be done next in the fetch of a plan, after `event`.
pub fn next_action(plan: &FetchPlan, event: FetchEvent) -> (action: FetchAction)
    ensures
        action@ == next_action_spec(plan@, event@),
{
    match event {
        FetchEvent::Started => FetchAction::ReadCache,
        FetchEvent::CacheRead(content) => match content {
            Some(text) => {
                if is_valid_cache(text.as_str()) {
                    FetchAction::Finish(Ok(()))
                } else {
                    FetchAction::Request
                }
            },
            None => FetchAction::Request,
        },
        FetchEvent::Answered(answer) => match answer {
            Err(words) => FetchAction::Finish(Err(BseError::NetworkError(words))),
            Ok(status) => match check_status(status, plan.basis.as_str()) {
                Err(error) => FetchAction::Finish(Err(error)),
                Ok(_) => FetchAction::ReadBody,
            },
        },
        FetchEvent::BodyRead(body) => match body {
            Err(words) => FetchAction::Finish(Err(BseError::NetworkError(words))),
            Ok(text) => match check_body(text.as_str(), plan) {
                Err(error) => FetchAction::Finish(Err(error)),
                Ok(_) => FetchAction::MakeDirectory,
            },
        },
        FetchEvent::DirectoryMade(made) => match made {
            Err(words) => FetchAction::Finish(Err(BseError::IoError(words))),
            Ok(_) => FetchAction::WriteFile,
        },
        FetchEvent::FileWritten(written) => match written {
            Err(words) => FetchAction::Finish(Err(BseError::IoError(words))),
            Ok(_) => FetchAction::Finish(Ok(())),
        },
    }
}

} // verus!
