use crate::docgen::diataxis::DocCategory;
use crate::text::chars_of;
use vstd::prelude::*;
use vstd::string::StringExecFns;

verus! {

/// Writes generated documents under an output directory, one subdirectory per
/// category. Deciding the target path is this library's logic; the writing
/// itself happens outside it.
#[derive(Debug)]
pub struct DocumentWriter {
    pub output_dir: String,
    pub overwrite: bool,
}

/// Whether a file name already ends in the generated-document extension.
pub open spec fn has_md_ext(f: Seq<char>) -> bool {
    f.len() >= 3 && f.subrange(f.len() - 3, f.len() as int) == ".md"@
}

/// The path a document of the given category and file name is written to: the
/// category's directory under the output directory, with the extension added
/// when missing.
pub open spec fn spec_target_path(
    output_dir: Seq<char>,
    category: DocCategory,
    filename: Seq<char>,
) -> Seq<char> {
    output_dir + "/"@ + category.spec_directory() + "/"@ + filename + (if has_md_ext(filename) {
        Seq::<char>::empty()
    } else {
        ".md"@
    })
}

impl DocumentWriter {
    /// A writer for the given output directory, overwriting existing files
    /// only when asked to.
    pub fn new(output_dir: String, overwrite: bool) -> (r: DocumentWriter)
        ensures
            r.output_dir@ == output_dir@,
            r.overwrite == overwrite,
    {
        DocumentWriter { output_dir, overwrite }
    }

    /// The path a document goes to.
    pub fn target_path(&self, category: DocCategory, filename: &str) -> (r: String)
        ensures
            r@ == spec_target_path(self.output_dir@, category, filename@),
    {
        let mut p = self.output_dir.clone();
        p.append("/");
        p.append(category.directory());
        p.append("/");
        p.append(filename);
        let cs = chars_of(filename);
        let ends_md = cs.len() >= 3 && cs[cs.len() - 3] == '.' && cs[cs.len() - 2] == 'm'
            && cs[cs.len() - 1] == 'd';
        proof {
            reveal_strlit(".md");
            if ends_md {
                assert(cs@.subrange(cs@.len() - 3, cs@.len() as int) =~= ".md"@);
            } else if has_md_ext(cs@) {
                assert(cs@.subrange(cs@.len() - 3, cs@.len() as int)[0] == '.');
                assert(cs@.subrange(cs@.len() - 3, cs@.len() as int)[1] == 'm');
                assert(cs@.subrange(cs@.len() - 3, cs@.len() as int)[2] == 'd');
            }
        }
        if !ends_md {
            p.append(".md");
        } else {
            proof {
                assert(p@ =~= spec_target_path(self.output_dir@, category, filename@));
            }
        }
        p
    }
}

} // verus!
