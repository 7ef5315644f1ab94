use vstd::prelude::*;
use vstd::string::StringExecFns;
use rand::Rng;
use rand::seq::SliceRandom;
use crate::models::{gain_segment, spec_gain_segment};

verus! {

/// A signal file a client can send, and the side of the image it is a signal of.
#[derive(Debug)]
pub struct ImgData {
    pub file_name: String,
    pub file_size: i32,
}

/// What a client's next request is made of; the signal itself is read from
/// `file_name`, and multiplied by the gain curve when `gain_segment` is given.
#[derive(Debug)]
pub struct RequestPlan {
    pub algorithm: i32,
    pub signal_type: i32,
    pub matrix_type: i32,
    pub size: i32,
    pub file_name: String,
    pub gain_segment: Option<usize>,
}

/// `rand::thread_rng().gen_range(low..high)`: a value drawn at random from
/// `low..high`. The crate panics on an empty range, which `requires` leaves out.
#[verifier::external_body]
fn random_in_range(low: i32, high: i32) -> (value: i32)
    requires
        low < high,
    ensures
        low <= value < high,
{
    rand::thread_rng().gen_range(low..high)
}

/// `SliceRandom::choose` with the thread's generator: one of the options drawn
/// at random, `None` only when there are none.
#[verifier::external_body]
fn choose_option(options: &Vec<ImgData>) -> (chosen: Option<&ImgData>)
    ensures
        chosen is None <==> options@.len() == 0,
        chosen matches Some(option) ==> exists|k: int| 0 <= k < options@.len() && options@[k] == *option,
{
    options.choose(&mut rand::thread_rng())
}

/// The signal files a client picks from.
pub open spec fn spec_option(k: int) -> (Seq<char>, i32) {
    if k == 0 {
        ("./Data/G-60-1.csv"@, 60i32)
    } else if k == 1 {
        ("./Data/G-60-2.csv"@, 60i32)
    } else {
        ("./Data/G-30-2.csv"@, 30i32)
    }
}

/// The four signal files a client picks from: two of side 60, then (twice) one of side 30.
pub fn request_options() -> (options: Vec<ImgData>)
    ensures
        options@.len() == 4,
        forall|k: int| 0 <= k < 4 ==> (#[trigger] options@[k]).file_name@ == spec_option(k).0
            && options@[k].file_size == spec_option(k).1,
{
    let mut options: Vec<ImgData> = Vec::new();
    options.push(ImgData { file_name: String::from_str("./Data/G-60-1.csv"), file_size: 60 });
    options.push(ImgData { file_name: String::from_str("./Data/G-60-2.csv"), file_size: 60 });
    options.push(ImgData { file_name: String::from_str("./Data/G-30-2.csv"), file_size: 30 });
    options.push(ImgData { file_name: String::from_str("./Data/G-30-2.csv"), file_size: 30 });
    options
}

/// The range the signal type is drawn from: `1..3` when the matrix type is 30,
/// `3..5` otherwise.
pub fn signal_type_range(matrix_type: i32) -> (range: (i32, i32))
    ensures
        range == (if matrix_type == 30 { (1i32, 3i32) } else { (3i32, 5i32) }),
{
    if matrix_type == 30 {
        (1, 3)
    } else {
        (3, 5)
    }
}

/// The request made of the drawn values: the gain curve, with the segment
/// length for the chosen side, is applied when the matrix type is 1.
pub fn plan_request(matrix_type: i32, signal_type: i32, algorithm: i32, option: &ImgData) -> (plan: RequestPlan)
    ensures
        plan.algorithm == algorithm,
        plan.signal_type == signal_type,
        plan.matrix_type == matrix_type,
        plan.size == option.file_size,
        plan.file_name@ == option.file_name@,
        plan.gain_segment == (if matrix_type == 1 { Some(spec_gain_segment(option.file_size)) } else { None::<usize> }),
{
    let segment = gain_segment(option.file_size);
    let gain = if matrix_type == 1 { Some(segment) } else { None };
    RequestPlan {
        algorithm,
        signal_type,
        matrix_type,
        size: option.file_size,
        file_name: option.file_name.clone(),
        gain_segment: gain,
    }
}

/// How many requests a client sends in one round, drawn at random from 0..10.
pub fn draw_request_count() -> (count: i32)
    ensures
        0 <= count < 10,
{
    random_in_range(0, 10)
}

/// A client's next request, drawn at random: matrix type in 1..3, signal type
/// from the range that matrix type selects (so, as 30 is never drawn, in 3..5),
/// algorithm in 1..3, and one of the four signal files.
pub fn create_request_plan() -> (plan: RequestPlan)
    ensures
        1 <= plan.matrix_type < 3,
        3 <= plan.signal_type < 5,
        1 <= plan.algorithm < 3,
        exists|k: int| 0 <= k < 4 && plan.file_name@ == #[trigger] spec_option(k).0
            && plan.size == spec_option(k).1,
        plan.gain_segment == (if plan.matrix_type == 1 { Some(spec_gain_segment(plan.size)) } else { None::<usize> }),
{
    let options = request_options();
    let matrix_type = random_in_range(1, 3);
    let range = signal_type_range(matrix_type);
    let signal_type = random_in_range(range.0, range.1);
    let algorithm = random_in_range(1, 3);
    match choose_option(&options) {
        Some(option) => {
            let plan = plan_request(matrix_type, signal_type, algorithm, option);
            proof {
                let k = choose|k: int| 0 <= k < options@.len() && options@[k] == *option;
                assert(options@[k].file_name@ == spec_option(k).0);
            }
            plan
        },
        None => {
            proof {
                assert(false);
            }
            plan_request(matrix_type, signal_type, algorithm, &options[0])
        },
    }
}

} // verus!
