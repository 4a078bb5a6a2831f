//! Command line values for the tracing of corks in a set of snapshots.

use crate::cli::snapshot::SnapNumInRange;
use crate::cli::utils::str_eq;
use crate::io::snapshot::extract_magnitude_name;
use crate::io::snapshot::magnitude_name;
use vstd::slice::slice_index_get;
use vstd::prelude::*;
use vstd::string::StringExecFns;

verus! {

/// The formats in which the data can be saved.
#[derive(Debug, Copy, Clone, PartialEq, Eq, Structural)]
pub enum OutputType {
    /// A binary file of cork data.
    Cork,
    /// A Python pickle file.
    Pickle,
    /// A JSON file.
    Json,
    /// An H5Part file.
    H5Part,
}

impl OutputType {
    /// The file extension of the format.
    pub open spec fn spec_extension(self) -> Seq<char> {
        match self {
            OutputType::Cork => "cork"@,
            OutputType::Pickle => "pickle"@,
            OutputType::Json => "json"@,
            OutputType::H5Part => "h5part"@,
        }
    }

    /// The file extension of the format.
    pub fn extension(&self) -> (extension: &'static str)
        ensures
            extension@ == self.spec_extension(),
    {
        match self {
            OutputType::Cork => "cork",
            OutputType::Pickle => "pickle",
            OutputType::Json => "json",
            OutputType::H5Part => "h5part",
        }
    }

    /// The format with the given file extension, where there is one.
    pub open spec fn with_extension(extension: Seq<char>) -> Option<Self> {
        if extension == "cork"@ {
            Some(OutputType::Cork)
        } else if extension == "pickle"@ {
            Some(OutputType::Pickle)
        } else if extension == "json"@ {
            Some(OutputType::Json)
        } else if extension == "h5part"@ {
            Some(OutputType::H5Part)
        } else {
            None
        }
    }

    /// The list of the valid file extensions.
    pub fn valid_extensions_string() -> (list: String)
        ensures
            list@ == "cork, pickle, json, h5part"@,
    {
        String::from_str("cork, pickle, json, h5part")
    }

    /// The message for a file extension that is no valid one.
    pub open spec fn invalid_extension_message(extension: Seq<char>) -> Seq<char> {
        "Error: Invalid extension "@ + extension + " for output file\nValid extensions are: "@
            + "cork, pickle, json, h5part"@
    }

    /// The message for an output file without extension.
    pub open spec fn missing_extension_message() -> Seq<char> {
        "Error: Missing extension for output file\nValid extensions are: "@
            + "cork, pickle, json, h5part"@
    }

    /// Determines the output format from the extension of the output file,
    /// or else gives the message that says that the extension is invalid.
    pub fn from_extension(extension: &str) -> (result: Result<Self, String>)
        ensures
            match Self::with_extension(extension@) {
                Some(output_type) => result == Ok::<Self, String>(output_type),
                None => result is Err && result->Err_0@ == Self::invalid_extension_message(
                    extension@,
                ),
            },
    {
        if str_eq(extension, "cork") {
            Ok(OutputType::Cork)
        } else if str_eq(extension, "pickle") {
            Ok(OutputType::Pickle)
        } else if str_eq(extension, "json") {
            Ok(OutputType::Json)
        } else if str_eq(extension, "h5part") {
            Ok(OutputType::H5Part)
        } else {
            let message = String::from_str("Error: Invalid extension ").concat(extension).concat(
                " for output file\nValid extensions are: ",
            ).concat(Self::valid_extensions_string().as_str());
            Err(message)
        }
    }

    /// Determines the output format from the extension of the path of the
    /// output file, where the path has one, or else gives the message that
    /// says that the extension is missing or invalid.
    pub fn from_path(extension: Option<&str>) -> (result: Result<Self, String>)
        ensures
            match extension {
                Some(extension) => match Self::with_extension(extension@) {
                    Some(output_type) => result == Ok::<Self, String>(output_type),
                    None => result is Err && result->Err_0@ == Self::invalid_extension_message(
                        extension@,
                    ),
                },
                None => result is Err && result->Err_0@ == Self::missing_extension_message(),
            },
    {
        match extension {
            Some(extension) => Self::from_extension(extension),
            None => {
                let message = String::from_str(
                    "Error: Missing extension for output file\nValid extensions are: ",
                ).concat(Self::valid_extensions_string().as_str());
                Err(message)
            },
        }
    }

    /// Every format is found again by its extension.
    pub proof fn lemma_extension_gives_format(self)
        ensures
            Self::with_extension(self.spec_extension()) == Some(self),
    {
        reveal_strlit("cork");
        reveal_strlit("pickle");
        reveal_strlit("json");
        reveal_strlit("h5part");
        assert("cork"@[0] != "pickle"@[0]);
        assert("cork"@[0] != "json"@[0]);
        assert("cork"@[0] != "h5part"@[0]);
        assert("pickle"@[0] != "h5part"@[0]);
        assert("pickle"@.len() != "json"@.len());
        assert("json"@.len() != "h5part"@.len());
    }
}

/// Whether this is the first snapshot of the set: no corks are kept yet.
pub fn is_first_iteration<S>(corks_state: &Option<S>) -> (is_first: bool)
    ensures
        is_first == (*corks_state is None),
{
    corks_state.is_none()
}

/// Whether the corks are to be saved after this snapshot: after the last
/// snapshot of the range, and after the only snapshot where there is no
/// range.
pub fn should_write_output(snap_num_in_range: &Option<SnapNumInRange>) -> (should_write: bool)
    ensures
        should_write == match *snap_num_in_range {
            Some(snap_num_in_range) => snap_num_in_range.current_offset
                == snap_num_in_range.final_offset,
            None => true,
        },
{
    match snap_num_in_range {
        Some(snap_num_in_range) => snap_num_in_range.current_offset
            == snap_num_in_range.final_offset,
        None => true,
    }
}

/// What is done about the output after a snapshot.
#[derive(Debug, Copy, Clone, PartialEq, Eq, Structural)]
pub enum OutputStep {
    /// Nothing.
    Nothing,
    /// It is checked that the output file may be written, so that a
    /// refusal comes before the work and not after it.
    CheckOnly,
    /// It is checked that the output file may be written, and the corks
    /// are saved.
    CheckAndWrite,
}

/// Decides what is done about the output after a snapshot: the corks are
/// saved when they are due, and after the first snapshot it is checked in
/// any case that the output file may be written.
pub fn plan_output(should_write: bool, is_first: bool) -> (step: OutputStep)
    ensures
        step == if should_write {
            OutputStep::CheckAndWrite
        } else if is_first {
            OutputStep::CheckOnly
        } else {
            OutputStep::Nothing
        },
{
    if should_write {
        OutputStep::CheckAndWrite
    } else if is_first {
        OutputStep::CheckOnly
    } else {
        OutputStep::Nothing
    }
}

/// The names among the given ones that stand for scalar quantities
/// themselves, in their order.
pub open spec fn scalar_quantity_names(names: Seq<&str>) -> Seq<Seq<char>> {
    names.filter(|name: &str| magnitude_name(name@) is None).map_values(|name: &str| name@)
}

/// The names of the vector quantities whose magnitudes the given names
/// ask for, in their order.
pub open spec fn vector_magnitude_names(names: Seq<&str>) -> Seq<Seq<char>> {
    names.filter(|name: &str| magnitude_name(name@) is Some).map_values(
        |name: &str| magnitude_name(name@)->0,
    )
}

/// The contents of the given strings.
pub open spec fn names_view(names: Seq<String>) -> Seq<Seq<char>> {
    names.map_values(|name: String| name@)
}

/// Sorts the names of the scalar quantities to sample into those of
/// scalar quantities themselves and those of magnitudes of vector
/// quantities.
fn sort_sampled_scalar_names(names: &[&str]) -> (sorted: (Vec<String>, Vec<String>))
    ensures
        names_view(sorted.0@) == scalar_quantity_names(names@),
        names_view(sorted.1@) == vector_magnitude_names(names@),
{
    let ghost is_scalar = |name: &str| magnitude_name(name@) is None;
    let ghost is_magnitude = |name: &str| magnitude_name(name@) is Some;
    let ghost content = |name: &str| name@;
    let ghost inner = |name: &str| magnitude_name(name@)->0;
    let mut scalar_names: Vec<String> = Vec::new();
    let mut magnitude_names: Vec<String> = Vec::new();
    proof {
        assert(names@.take(0).filter(is_scalar) =~= Seq::empty());
        assert(names@.take(0).filter(is_magnitude) =~= Seq::empty());
        assert(names_view(scalar_names@) =~= names@.take(0).filter(is_scalar).map_values(content));
        assert(names_view(magnitude_names@) =~= names@.take(0).filter(is_magnitude).map_values(
            inner,
        ));
    }
    for i in 0..names.len()
        invariant
            is_scalar == |name: &str| magnitude_name(name@) is None,
            is_magnitude == |name: &str| magnitude_name(name@) is Some,
            content == |name: &str| name@,
            inner == |name: &str| magnitude_name(name@)->0,
            names_view(scalar_names@) == names@.take(i as int).filter(is_scalar).map_values(
                content,
            ),
            names_view(magnitude_names@) == names@.take(i as int).filter(is_magnitude).map_values(
                inner,
            ),
    {
        let name = *slice_index_get(names, i);
        let ghost done = names@.take(i as int);
        let ghost scalars_before = scalar_names@;
        let ghost magnitudes_before = magnitude_names@;
        proof {
            assert(names@.take(i + 1).drop_last() =~= done);
            assert(names@.take(i + 1).last() == name);
            reveal(Seq::filter);
        }
        match extract_magnitude_name(name) {
            Some(magnitude) => {
                magnitude_names.push(String::from_str(magnitude));
                proof {
                    assert(names@.take(i + 1).filter(is_magnitude) == done.filter(
                        is_magnitude,
                    ).push(name));
                    assert(names@.take(i + 1).filter(is_scalar) == done.filter(is_scalar));
                    assert(names_view(magnitude_names@) =~= names_view(magnitudes_before).push(
                        inner(name),
                    ));
                    assert(done.filter(is_magnitude).map_values(inner).push(inner(name))
                        =~= done.filter(is_magnitude).push(name).map_values(inner));
                }
            },
            None => {
                scalar_names.push(String::from_str(name));
                proof {
                    assert(names@.take(i + 1).filter(is_scalar) == done.filter(is_scalar).push(
                        name,
                    ));
                    assert(names@.take(i + 1).filter(is_magnitude) == done.filter(is_magnitude));
                    assert(names_view(scalar_names@) =~= names_view(scalars_before).push(
                        content(name),
                    ));
                    assert(done.filter(is_scalar).map_values(content).push(content(name))
                        =~= done.filter(is_scalar).push(name).map_values(content));
                }
            },
        }
    }
    assert(names@.take(names.len() as int) =~= names@);
    (scalar_names, magnitude_names)
}

/// The given names as strings of their own.
fn own_names(names: &[&str]) -> (owned: Vec<String>)
    ensures
        names_view(owned@) == names@.map_values(|name: &str| name@),
{
    let mut owned: Vec<String> = Vec::new();
    for i in 0..names.len()
        invariant
            owned@.len() == i,
            forall|j: int| 0 <= j < i ==> owned@[j]@ == names@[j]@,
    {
        owned.push(String::from_str(*slice_index_get(names, i)));
    }
    assert(names_view(owned@) =~= names@.map_values(|name: &str| name@));
    owned
}

/// Sorts the names of the quantities to sample along the cork paths. It
/// gives the names of the scalar quantities, of the vector quantities, and
/// of the vector quantities of which the magnitude is sampled.
pub fn obtain_sampled_quantity_names(
    sampled_scalar_quantities: Option<&[&str]>,
    sampled_vector_quantities: Option<&[&str]>,
) -> (names: (Vec<String>, Vec<String>, Vec<String>))
    ensures
        names_view(names.0@) == match sampled_scalar_quantities {
            Some(sampled) => scalar_quantity_names(sampled@),
            None => Seq::empty(),
        },
        names_view(names.1@) == match sampled_vector_quantities {
            Some(sampled) => sampled@.map_values(|name: &str| name@),
            None => Seq::empty(),
        },
        names_view(names.2@) == match sampled_scalar_quantities {
            Some(sampled) => vector_magnitude_names(sampled@),
            None => Seq::empty(),
        },
{
    let (scalar_quantity_names, vector_magnitude_names) = match sampled_scalar_quantities {
        Some(sampled) => sort_sampled_scalar_names(sampled),
        None => {
            let scalar_names: Vec<String> = Vec::new();
            let magnitude_names: Vec<String> = Vec::new();
            assert(names_view(scalar_names@) =~= Seq::empty());
            assert(names_view(magnitude_names@) =~= Seq::empty());
            (scalar_names, magnitude_names)
        },
    };
    let vector_quantity_names = match sampled_vector_quantities {
        Some(sampled) => own_names(sampled),
        None => {
            let vector_names: Vec<String> = Vec::new();
            assert(names_view(vector_names@) =~= Seq::empty());
            vector_names
        },
    };
    (scalar_quantity_names, vector_quantity_names, vector_magnitude_names)
}

} // verus!
