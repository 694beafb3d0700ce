//! Loading the basis set of an element: its file is fetched if need be, and
//! then read.

use crate::basis::{
    fetch_basis_impl, fetch_plan_spec, BasisSet, BseError, BseErrorView, FetchPlan,
    FetchPlanView, LoadError, LoadErrorView, BSE_BASE_URL, DEFAULT_CACHE_ROOT,
};
use crate::qcschema::{
    content_view, deterministic, parse_basis, parse_basis_spec, reading_of, BasisSetView, Reading,
};
use crate::text::result_view;
use vstd::prelude::*;

verus! {

/// What loading gives, after a plan was carried out with the end `fetched`
/// and, if that went well, the file of the plan was read as `content`.
pub open spec fn load_outcome<T>(
    fetched: Result<(), BseError>,
    content: Result<String, String>,
    reading: Reading<T>,
) -> Result<BasisSetView<T>, LoadErrorView> {
    match fetched {
        Err(error) => Err(LoadErrorView::Fetch(error@)),
        Ok(_) => match parse_basis_spec(content_view(content), reading) {
            Err(error) => Err(LoadErrorView::Parse(error)),
            Ok(basis) => Ok(basis),
        },
    }
}

/// `result` is what loading gives for the planned fetch: the error of the
/// plan, if there is no plan; else the error of carrying it out, if `fetch`
/// failed for it; else what reading the file of the plan gave, read as a
/// basis set.
pub open spec fn loaded_as<T, F, R, P>(
    planned: Result<FetchPlanView, BseErrorView>,
    fetch: F,
    read_file: R,
    parse_real: P,
    result: Result<BasisSetView<T>, LoadErrorView>,
) -> bool where
    F: Fn(&FetchPlan) -> Result<(), BseError>,
    R: Fn(&FetchPlan) -> Result<String, String>,
    P: Fn(&String) -> Option<T>,
 {
    match planned {
        Err(error) => result == Err::<BasisSetView<T>, LoadErrorView>(LoadErrorView::Fetch(error)),
        Ok(planned) => exists|plan: FetchPlan, fetched: Result<(), BseError>|
            {
                &&& plan@ == planned
                &&& #[trigger] call_ensures(fetch, (&plan,), fetched)
                &&& fetched is Err ==> result == Err::<BasisSetView<T>, LoadErrorView>(
                    LoadErrorView::Fetch(fetched->Err_0@),
                )
                &&& fetched is Ok ==> exists|content: Result<String, String>| #[trigger]
                    call_ensures(read_file, (&plan,), content) && result == load_outcome(
                        fetched,
                        content,
                        reading_of(parse_real),
                    )
            },
    }
}

/// Loads the basis set `basis_name` of `element` from the service at
/// `base_url`, with the files kept under `cache_root`.
///
/// The fetch is planned; `fetch` carries the plan out, so that the file of
/// the plan holds the basis set; `read_file` reads that file, and gives its
/// content or the words of the error; `parse_real` reads a string as a real
/// number. A failure of the plan or of `fetch` is a fetch error, and then
/// no file is read; a failure to read the file or its content is a parse
/// error.
pub fn load_basis_impl<T: Copy, F, R, P>(
    element: &str,
    basis_name: &str,
    base_url: &str,
    cache_root: &str,
    fetch: F,
    read_file: R,
    parse_real: P,
) -> (result: Result<BasisSet<T>, LoadError>) where
    F: Fn(&FetchPlan) -> Result<(), BseError>,
    R: Fn(&FetchPlan) -> Result<String, String>,
    P: Fn(&String) -> Option<T>,

    requires
        forall|plan: FetchPlan| call_requires(fetch, (&plan,)),
        forall|plan: FetchPlan| call_requires(read_file, (&plan,)),
        forall|s: String| call_requires(parse_real, (&s,)),
        deterministic(parse_real),
    ensures
        loaded_as(
            fetch_plan_spec(element@, basis_name@, base_url@, cache_root@),
            fetch,
            read_file,
            parse_real,
            result_view(result),
        ),
{
    let plan = match fetch_basis_impl(element, basis_name, base_url, cache_root) {
        Ok(plan) => plan,
        Err(error) => {
            return Err(LoadError::Fetch(error));
        },
    };
    if let Err(error) = fetch(&plan) {
        return Err(LoadError::Fetch(error));
    }
    let content = read_file(&plan);
    let ghost kept = content;
    let result = match parse_basis(content, parse_real) {
        Ok(basis) => Ok(basis),
        Err(error) => Err(LoadError::Parse(error)),
    };
    assert(call_ensures(read_file, (&plan,), kept) && result_view(result) == load_outcome(
        Ok::<(), BseError>(()),
        kept,
        reading_of(parse_real),
    ));
    result
}

/// Loads the basis set `basis_name` of `element` from the basis-set
/// service, with the files kept under `data/basis`.
pub fn load_basis<T: Copy, F, R, P>(
    element: &str,
    basis_name: &str,
    fetch: F,
    read_file: R,
    parse_real: P,
) -> (result: Result<BasisSet<T>, LoadError>) where
    F: Fn(&FetchPlan) -> Result<(), BseError>,
    R: Fn(&FetchPlan) -> Result<String, String>,
    P: Fn(&String) -> Option<T>,

    requires
        forall|plan: FetchPlan| call_requires(fetch, (&plan,)),
        forall|plan: FetchPlan| call_requires(read_file, (&plan,)),
        forall|s: String| call_requires(parse_real, (&s,)),
        deterministic(parse_real),
    ensures
        loaded_as(
            fetch_plan_spec(element@, basis_name@, BSE_BASE_URL@, DEFAULT_CACHE_ROOT@),
            fetch,
            read_file,
            parse_real,
            result_view(result),
        ),
{
    load_basis_impl(
        element,
        basis_name,
        BSE_BASE_URL,
        DEFAULT_CACHE_ROOT,
        fetch,
        read_file,
        parse_real,
    )
}

} // verus!
