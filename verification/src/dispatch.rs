use vstd::prelude::*;
use crate::models::{Alghorithm, ImageSize};
use vstd::string::StringExecFns;

verus! {

/// Side length, in pixels, of a small image.
pub const SMALL_SIDE: u32 = 30;

/// Side length, in pixels, of a medium image.
pub const MEDIUM_SIDE: u32 = 60;

/// Priority of a request for a small image.
pub const SMALL_IMAGE_PRIORITY: u32 = 2;

/// Priority of any other request.
pub const DEFAULT_PRIORITY: u32 = 1;

/// Priority given to a request for an image of side `size`: small images first.
pub open spec fn priority_for(size: i32) -> u32 {
    if size == 30 { SMALL_IMAGE_PRIORITY } else { DEFAULT_PRIORITY }
}

/// The priority under which a request for an image of side `size` is queued.
pub fn request_priority(size: i32) -> (priority: u32)
    ensures
        priority == priority_for(size),
        priority == 2 <==> size == 30,
        priority == 1 <==> size != 30,
{
    if size == 30 {
        SMALL_IMAGE_PRIORITY
    } else {
        DEFAULT_PRIORITY
    }
}


/// Most iterations a server-side solver runs.
pub const MAX_SOLVER_ITERATIONS: i32 = 30;

/// A reconstruction to run: the algorithm, and the image size, which fixes the
/// system matrix.
#[derive(Clone, Copy, Debug, PartialEq, Eq, Structural)]
pub struct Job {
    pub algorithm: Alghorithm,
    pub size: ImageSize,
}

/// The job a request with algorithm code `algorithm` (1: CGNE, 2: CGNR) and image
/// side `size` (30 or 60) asks for; `None` for any other combination.
pub open spec fn spec_select_job(algorithm: i32, size: i32) -> Option<Job> {
    if algorithm == 1 && size == 60 {
        Some(Job { algorithm: Alghorithm::CGNE, size: ImageSize::Medium })
    } else if algorithm == 2 && size == 60 {
        Some(Job { algorithm: Alghorithm::CGNR, size: ImageSize::Medium })
    } else if algorithm == 1 && size == 30 {
        Some(Job { algorithm: Alghorithm::CGNE, size: ImageSize::Small })
    } else if algorithm == 2 && size == 30 {
        Some(Job { algorithm: Alghorithm::CGNR, size: ImageSize::Small })
    } else {
        None
    }
}

/// The job a request asks for: algorithm code 1 is CGNE and 2 is CGNR, side 60
/// uses the medium system matrix and side 30 the small one. Any other request is
/// unsupported (`None`).
pub fn select_job(algorithm: i32, size: i32) -> (job: Option<Job>)
    ensures
        job == spec_select_job(algorithm, size),
        job is Some <==> (algorithm == 1 || algorithm == 2) && (size == 30 || size == 60),
{
    match (algorithm, size) {
        (1, 60) => Some(Job { algorithm: Alghorithm::CGNE, size: ImageSize::Medium }),
        (2, 60) => Some(Job { algorithm: Alghorithm::CGNR, size: ImageSize::Medium }),
        (1, 30) => Some(Job { algorithm: Alghorithm::CGNE, size: ImageSize::Small }),
        (2, 30) => Some(Job { algorithm: Alghorithm::CGNR, size: ImageSize::Small }),
        _ => None,
    }
}

/// A selected job's image size has the side the request asked for.
pub proof fn selected_size_matches_request(algorithm: i32, size: i32)
    requires
        spec_select_job(algorithm, size) is Some,
    ensures
        spec_select_job(algorithm, size).unwrap().size.spec_side() == size,
        ImageSize::spec_from_side(size) == Some(spec_select_job(algorithm, size).unwrap().size),
{
}

/// The message with which an unknown algorithm name is refused.
pub open spec fn unsupported_message(name: Seq<char>) -> Seq<char> {
    "Unsupported algorithm type: "@ + name
}

/// The algorithm called `name`: "cgne" or "cgnr". Any other name is refused
/// with the message "Unsupported algorithm type: " followed by the name.
pub fn parse_algorithm_name(name: &str) -> (parsed: Result<Alghorithm, String>)
    ensures
        (parsed matches Ok(algorithm) && algorithm == Alghorithm::CGNE) <==> name@ == "cgne"@,
        (parsed matches Ok(algorithm) && algorithm == Alghorithm::CGNR) <==> name@ == "cgnr"@,
        parsed is Err <==> name@ != "cgne"@ && name@ != "cgnr"@,
        parsed matches Err(message) ==> message@ == unsupported_message(name@),
{
    proof {
        reveal_strlit("cgne");
        reveal_strlit("cgnr");
        assert("cgne"@[3] != "cgnr"@[3]);
    }
    let given = String::from_str(name);
    let cgne = String::from_str("cgne");
    let cgnr = String::from_str("cgnr");
    if given == cgne {
        Ok(Alghorithm::CGNE)
    } else if given == cgnr {
        Ok(Alghorithm::CGNR)
    } else {
        let mut message = String::from_str("Unsupported algorithm type: ");
        message.append(name);
        Err(message)
    }
}

/// Naming an algorithm and reading the name back gives the same algorithm.
pub proof fn algorithm_name_round_trip(algorithm: Alghorithm)
    ensures
        algorithm.spec_name() == "cgne"@ <==> algorithm == Alghorithm::CGNE,
        algorithm.spec_name() == "cgnr"@ <==> algorithm == Alghorithm::CGNR,
{
    reveal_strlit("cgne");
    reveal_strlit("cgnr");
    assert("cgne"@[3] != "cgnr"@[3]);
}

/// Whether a server-side solver runs another iteration: only while its error is
/// above the tolerance and it has run fewer than 30 iterations.
pub fn keep_iterating(above_tolerance: bool, iterations: i32) -> (go_on: bool)
    ensures
        go_on == (above_tolerance && iterations < MAX_SOLVER_ITERATIONS),
        go_on ==> iterations + 1 <= MAX_SOLVER_ITERATIONS,
{
    above_tolerance && iterations < MAX_SOLVER_ITERATIONS
}

} // verus!
