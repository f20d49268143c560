//! Content languages: JW `langwritten` codes offered for publications.

use vstd::prelude::*;

use crate::error::AppError;
use crate::text::{str_eq, trim, trim_seq};

verus! {

/// One `langwritten` entry of the language seed. Not a BCP-47 UI locale.
#[derive(Debug, Clone)]
pub struct ContentLanguageDto {
    pub langwritten: String,
    pub name: String,
    pub locale: String,
    pub direction: String,
    pub script: String,
}

/// Whether some seed entry has this code.
pub open spec fn seed_has(seed: Seq<ContentLanguageDto>, code: Seq<char>) -> bool {
    exists|i: int| 0 <= i < seed.len() && seed[i].langwritten@ == code
}

/// Accepts a code that exists in the seed after trimming; does not change
/// its case. Anything else is `UnknownContentLanguage`.
pub fn validate_content_locale(code: &str, seed: &Vec<ContentLanguageDto>) -> (r: Result<String, AppError>)
    ensures
        match r {
            Ok(s) => s@ == trim_seq(code@) && trim_seq(code@).len() > 0 && seed_has(seed@, trim_seq(code@)),
            Err(e) => e is UnknownContentLanguage && (trim_seq(code@).len() == 0 || !seed_has(
                seed@,
                trim_seq(code@),
            )),
        },
{
    let trimmed = trim(code);
    if trimmed.as_str().is_empty() {
        return Err(AppError::UnknownContentLanguage);
    }
    let mut i: usize = 0;
    while i < seed.len()
        invariant
            i <= seed@.len(),
            trimmed@ == trim_seq(code@),
            trimmed@.len() > 0,
            forall|k: int| 0 <= k < i ==> seed@[k].langwritten@ != trimmed@,
        decreases seed@.len() - i,
    {
        if str_eq(seed[i].langwritten.as_str(), trimmed.as_str()) {
            assert(seed@[i as int].langwritten@ == trimmed@);
            return Ok(trimmed);
        }
        i = i + 1;
    }
    Err(AppError::UnknownContentLanguage)
}

} // verus!
