//! Pieces of the report that do not depend on how it is laid out.

use vstd::prelude::*;
use vstd::string::StringExecFns;

verus! {

/// The text of a terminal hyperlink: `title`, linked to the page of the
/// module `href` on the registry's site.
pub open spec fn hyperlink(href: Seq<char>, title: Seq<char>) -> Seq<char> {
    "\x1B]8;;https://forge.puppet.com/modules/"@ + href + "\x1B\\"@ + title + "\x1B]8;;\x1B\\"@
}

/// A terminal hyperlink that shows `title` and leads to the registry's page
/// of the module `href`, which is written `owner/name`.
pub fn forge_module_console_hyperlink(href: &str, title: &str) -> (out: String)
    ensures
        out@ == hyperlink(href@, title@),
{
    let mut out = String::from_str("\x1B]8;;https://forge.puppet.com/modules/");
    out.append(href);
    out.append("\x1B\\");
    out.append(title);
    out.append("\x1B]8;;\x1B\\");
    out
}

} // verus!
