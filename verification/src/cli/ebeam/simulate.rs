//! Command line values for the simulation of electron beams.

use crate::cli::utils::str_eq;
use vstd::prelude::*;
use vstd::string::StringExecFns;

verus! {

/// The formats in which the data can be saved.
#[derive(Debug, Copy, Clone, PartialEq, Eq, Structural)]
pub enum OutputType {
    /// A binary file of field line data.
    Fl,
    /// A Python pickle file.
    Pickle,
    /// A JSON file.
    Json,
    /// An H5Part file.
    H5Part,
}

impl OutputType {
    /// The file extension of the format.
    pub open spec fn spec_extension(self) -> Seq<char> {
        match self {
            OutputType::Fl => "fl"@,
            OutputType::Pickle => "pickle"@,
            OutputType::Json => "json"@,
            OutputType::H5Part => "h5part"@,
        }
    }

    /// The file extension of the format.
    pub fn extension(&self) -> (extension: &'static str)
        ensures
            extension@ == self.spec_extension(),
    {
        match self {
            OutputType::Fl => "fl",
            OutputType::Pickle => "pickle",
            OutputType::Json => "json",
            OutputType::H5Part => "h5part",
        }
    }

    /// The format with the given file extension, where there is one.
    pub open spec fn with_extension(extension: Seq<char>) -> Option<Self> {
        if extension == "fl"@ {
            Some(OutputType::Fl)
        } else if extension == "pickle"@ {
            Some(OutputType::Pickle)
        } else if extension == "json"@ {
            Some(OutputType::Json)
        } else if extension == "h5part"@ {
            Some(OutputType::H5Part)
        } else {
            None
        }
    }

    /// The list of the valid file extensions.
    pub fn valid_extensions_string() -> (list: String)
        ensures
            list@ == "fl, pickle, json, h5part"@,
    {
        String::from_str("fl, pickle, json, h5part")
    }

    /// The message for a file extension that is no valid one.
    pub open spec fn invalid_extension_message(extension: Seq<char>) -> Seq<char> {
        "Error: Invalid extension "@ + extension + " for output file\nValid extensions are: "@
            + "fl, pickle, json, h5part"@
    }

    /// The message for an output file without extension.
    pub open spec fn missing_extension_message() -> Seq<char> {
        "Error: Missing extension for output file\nValid extensions are: "@
            + "fl, pickle, json, h5part"@
    }

    /// Determines the output format from the extension of the output file,
    /// or else gives the message that says that the extension is invalid.
    pub fn from_extension(extension: &str) -> (result: Result<Self, String>)
        ensures
            match Self::with_extension(extension@) {
                Some(output_type) => result == Ok::<Self, String>(output_type),
                None => result is Err && result->Err_0@ == Self::invalid_extension_message(
                    extension@,
                ),
            },
    {
        if str_eq(extension, "fl") {
            Ok(OutputType::Fl)
        } else if str_eq(extension, "pickle") {
            Ok(OutputType::Pickle)
        } else if str_eq(extension, "json") {
            Ok(OutputType::Json)
        } else if str_eq(extension, "h5part") {
            Ok(OutputType::H5Part)
        } else {
            let message = String::from_str("Error: Invalid extension ").concat(extension).concat(
                " for output file\nValid extensions are: ",
            ).concat(Self::valid_extensions_string().as_str());
            Err(message)
        }
    }

    /// Determines the output format from the extension of the path of the
    /// output file, where the path has one, or else gives the message that
    /// says that the extension is missing or invalid.
    pub fn from_path(extension: Option<&str>) -> (result: Result<Self, String>)
        ensures
            match extension {
                Some(extension) => match Self::with_extension(extension@) {
                    Some(output_type) => result == Ok::<Self, String>(output_type),
                    None => result is Err && result->Err_0@ == Self::invalid_extension_message(
                        extension@,
                    ),
                },
                None => result is Err && result->Err_0@ == Self::missing_extension_message(),
            },
    {
        match extension {
            Some(extension) => Self::from_extension(extension),
            None => {
                let message = String::from_str(
                    "Error: Missing extension for output file\nValid extensions are: ",
                ).concat(Self::valid_extensions_string().as_str());
                Err(message)
            },
        }
    }

    /// Every format is found again by its extension.
    pub proof fn lemma_extension_gives_format(self)
        ensures
            Self::with_extension(self.spec_extension()) == Some(self),
    {
        reveal_strlit("fl");
        reveal_strlit("pickle");
        reveal_strlit("json");
        reveal_strlit("h5part");
        assert("fl"@[0] != "pickle"@[0]);
        assert("fl"@[0] != "json"@[0]);
        assert("fl"@[0] != "h5part"@[0]);
        assert("pickle"@[0] != "h5part"@[0]);
        assert("pickle"@.len() != "json"@.len());
        assert("json"@.len() != "h5part"@.len());
    }
}

} // verus!
