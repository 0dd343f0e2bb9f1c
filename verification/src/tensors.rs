//! Tensors of a safetensors file.
use vstd::prelude::*;

use crate::json::{json_entries, Json, JsonView};
use crate::shards::{header_of, little_endian, read_length, read_safetensors_header};

verus! {

/// The mathematical form of a [`TensorEntry`].
pub ghost struct TensorView {
    /// Name of the element type, such as `BF16`.
    pub dtype: Seq<char>,
    pub shape: Seq<usize>,
    pub data: Seq<u8>,
}

/// A tensor as it lies in a file.
#[derive(Debug)]
pub struct TensorEntry<'a> {
    pub dtype: String,
    pub shape: Vec<usize>,
    pub data: &'a [u8],
}

impl<'a> View for TensorEntry<'a> {
    type V = TensorView;

    open spec fn view(&self) -> TensorView {
        TensorView { dtype: self.dtype@, shape: self.shape@, data: self.data@ }
    }
}

/// An opened safetensors file of the crate `safetensors`.
#[verifier::external_type_specification]
#[verifier::external_body]
pub struct ExSafeTensors<'data>(safetensors::SafeTensors<'data>);

/// The tensors of a safetensors file by name; nothing when the bytes are no such file.
pub uninterp spec fn tensors_of(bytes: Seq<u8>) -> Option<Map<Seq<char>, TensorView>>;

/// The tensors that an opened file holds, by name.
pub uninterp spec fn tensors_in(file: safetensors::SafeTensors<'_>) -> Map<Seq<char>, TensorView>;

/// The position behind its data that a header states for a tensor. A tensor is an object
/// with the member `data_offsets`, or a list with the offsets in third place.
pub open spec fn stated_end(tensor: JsonView) -> Option<u64> {
    let offsets = match tensor {
        JsonView::Array(items) => if items.len() > 2 {
            Some(items[2])
        } else {
            None
        },
        _ => tensor.get("data_offsets"@),
    };
    match offsets {
        Some(JsonView::Array(pair)) => if pair.len() > 1 {
            pair[1].as_u64()
        } else {
            None
        },
        _ => None,
    }
}

/// The machine counts every position in a file that its header states, the 8 bytes of the
/// header's length and the header itself among them.
pub open spec fn offsets_fit(bytes: Seq<u8>) -> bool {
    header_of(bytes) matches Some(entries) ==> forall|i: int|
        0 <= i < entries.len() ==> (stated_end((#[trigger] entries[i]).1) matches Some(end) ==> end
            + 8 + little_endian(bytes.subrange(0, 8)) <= usize::MAX)
}

/// `SafeTensors::deserialize`: opens exactly the bytes that are a safetensors file, and
/// what it holds depends on the bytes alone. It adds the end of the last tensor, 8 and the
/// length of the header without a check, so headers for which that sum does not fit are
/// left out. Of the error only its text is kept, of which nothing is stated: it can depend
/// on the order in which a hash map is walked.
#[verifier::external_body]
fn open_tensors<'a>(bytes: &'a [u8]) -> (r: Result<safetensors::SafeTensors<'a>, String>)
    requires
        offsets_fit(bytes@),
    ensures
        match r {
            Ok(file) => tensors_of(bytes@) == Some(tensors_in(file)),
            Err(_) => tensors_of(bytes@) is None,
        },
{
    safetensors::SafeTensors::deserialize(bytes).map_err(|error| error.to_string())
}

fn read_end(tensor: &Json) -> (r: Option<u64>)
    ensures
        r == stated_end(tensor@),
{
    let offsets = match tensor {
        Json::Array(items) => {
            if items.len() > 2 {
                assert(tensor@->Array_0[2] == items@[2]@);
                Some(&items[2])
            } else {
                None
            }
        },
        _ => tensor.get("data_offsets"),
    };
    match offsets {
        Some(Json::Array(pair)) => if pair.len() > 1 {
            assert(offsets.unwrap()@->Array_0[1] == pair@[1]@);
            pair[1].as_u64()
        } else {
            None
        },
        _ => None,
    }
}

fn check_offsets(bytes: &[u8]) -> (r: bool)
    ensures
        r == offsets_fit(bytes@),
{
    let header = match read_safetensors_header(bytes) {
        Some(header) => header,
        None => return true,
    };
    let entries = match header.as_object() {
        Some(entries) => entries,
        None => return true,
    };
    let ghost views = json_entries(entries@);
    let length: u64 = read_length(bytes);
    let mut i: usize = 0;
    while i < entries.len()
        invariant
            i <= entries@.len(),
            views == json_entries(entries@),
            header_of(bytes@) == Some(views),
            length == little_endian(bytes@.subrange(0, 8)),
            forall|j: int|
                0 <= j < i ==> (stated_end((#[trigger] views[j]).1) matches Some(end) ==> end + 8
                    + length <= usize::MAX),
        decreases entries@.len() - i,
    {
        assert(views[i as int].1 == entries@[i as int].1@);
        if let Some(end) = read_end(&entries[i].1) {
            let sum: u128 = end as u128 + 8 + length as u128;
            if sum > usize::MAX as u128 {
                return false;
            }
        }
        i += 1;
    }
    true
}

/// The tensors of a file that is opened; nothing for bytes that are no safetensors file,
/// and for a header that states a position beyond what the machine counts.
#[verifier::opaque]
pub open spec fn file_tensors(bytes: Seq<u8>) -> Option<Map<Seq<char>, TensorView>> {
    if offsets_fit(bytes) {
        tensors_of(bytes)
    } else {
        None
    }
}

/// Open a safetensors file. A header that states a position beyond what the machine counts
/// cannot cover the file and is refused.
pub(crate) fn read_tensors<'a>(bytes: &'a [u8]) -> (r: Result<safetensors::SafeTensors<'a>, String>)
    ensures
        match r {
            Ok(file) => file_tensors(bytes@) == Some(tensors_in(file)),
            Err(_) => file_tensors(bytes@) is None,
        },
{
    proof {
        reveal(file_tensors);
    }
    if !check_offsets(bytes) {
        return Err("incomplete metadata, file not fully covered".to_owned());
    }
    open_tensors(bytes)
}

/// `SafeTensors::tensor`: the tensor of that name, its dtype by the name of the variant,
/// its shape and its bytes; nothing when the file has no such tensor, which is the only
/// error.
#[verifier::external_body]
pub(crate) fn find_tensor<'a>(file: &safetensors::SafeTensors<'a>, name: &str) -> (r: Option<
    TensorEntry<'a>,
>)
    ensures
        match r {
            Some(tensor) => tensors_in(*file).contains_key(name@) && tensor@ == tensors_in(
                *file,
            )[name@],
            None => !tensors_in(*file).contains_key(name@),
        },
{
    file.tensor(name).ok().map(
        |view|
            TensorEntry {
                dtype: format!("{:?}", view.dtype()),
                shape: view.shape().to_vec(),
                data: view.data(),
            },
    )
}

/// The message for a tensor that a file does not hold.
pub open spec fn not_found(name: Seq<char>) -> Seq<char> {
    "tensor `"@ + name + "` not found"@
}

/// The message for a tensor that a file does not hold.
pub fn not_found_text(name: &str) -> (r: String)
    ensures
        r@ == not_found(name@),
{
    "tensor `".to_owned().concat(name).concat("` not found")
}

} // verus!
