//! What to show of the installed packages, and what to install again.

use vstd::prelude::*;
use vstd::string::*;
use vstd::utf8::*;
use crate::cli::Args;
use crate::package::{
    has_update, key_texts, out_of_date, package_views, Package, PackageView, Registry,
    RegistryView,
};

verus! {

broadcast use vstd::slice::axiom_spec_len;

/// The width of the name column where there is no package.
pub const DEFAULT_WIDTH: usize = 12;

/// Whether a package is looked at: one from an index always, one from a repository
/// only where those were asked for.
pub open spec fn selected(package: PackageView, git: bool) -> bool {
    match package.registry {
        RegistryView::Registry(_) => true,
        RegistryView::Git { .. } => git,
    }
}

/// The label of a package in the table.
pub open spec fn label(package: PackageView) -> Seq<char> {
    if out_of_date(package) {
        "Update"@
    } else {
        "Fresh"@
    }
}

/// The length of a name in bytes.
pub open spec fn name_width(package: PackageView) -> nat {
    encode_utf8(package.name).len()
}

/// The greatest length of a name among the packages, `DEFAULT_WIDTH` where there is
/// none.
pub open spec fn widest(packages: Seq<PackageView>) -> nat
    decreases packages.len(),
{
    if packages.len() == 0 {
        DEFAULT_WIDTH as nat
    } else if packages.len() == 1 {
        name_width(packages[0])
    } else {
        let before = widest(packages.drop_last());
        if name_width(packages.last()) > before {
            name_width(packages.last())
        } else {
            before
        }
    }
}

/// The arguments with which the installer installs the package again.
pub open spec fn install_command(package: PackageView) -> Seq<Seq<char>> {
    match package.registry {
        RegistryView::Git { url, commit } => seq!["install"@, "--git"@, url, package.name],
        RegistryView::Registry(_) => seq!["install"@, package.name],
    }
}

/// Whether the package is among those to look up.
pub fn is_selected(package: &Package, args: &Args) -> (r: bool)
    ensures
        r == selected(package@, args.git),
{
    match package.registry {
        Registry::Registry(_) => true,
        _ => args.git,
    }
}

/// Whether the package is installed again: where it is out of date, unless the run
/// only lists.
pub fn is_due(package: &Package, args: &Args) -> (r: bool)
    ensures
        r == (!args.list && out_of_date(package@)),
{
    !args.list && has_update(package)
}

/// `Update` for a package that is out of date, `Fresh` for any other.
pub fn status(package: &Package) -> (r: &'static str)
    ensures
        r@ == label(package@),
{
    if has_update(package) {
        "Update"
    } else {
        "Fresh"
    }
}

/// The width of the name column of the table.
pub fn package_width(packages: &Vec<Package>) -> (width: usize)
    ensures
        width == widest(package_views(packages@)),
{
    if packages.len() == 0 {
        return DEFAULT_WIDTH;
    }
    let ghost views = package_views(packages@);
    let mut width: usize = packages[0].name.as_str().as_bytes().len();
    let mut i: usize = 1;
    assert(views.take(1) =~= seq![packages@[0]@]);
    while i < packages.len()
        invariant
            1 <= i <= packages.len(),
            views == package_views(packages@),
            width == widest(views.take(i as int)),
        decreases packages.len() - i,
    {
        proof {
            let upto = views.take(i + 1);
            assert(upto.drop_last() =~= views.take(i as int));
            assert(upto.last() == packages@[i as int]@);
        }
        let len: usize = packages[i].name.as_str().as_bytes().len();
        if len > width {
            width = len;
        }
        i += 1;
    }
    assert(views.take(packages.len() as int) =~= views);
    width
}

/// The arguments for installing the package again: from its repository, or by its
/// name from the index.
pub fn install_arguments(package: &Package) -> (arguments: Vec<String>)
    ensures
        key_texts(arguments@) == install_command(package@),
{
    let mut arguments: Vec<String> = Vec::new();
    arguments.push(String::from_str("install"));
    if let Registry::Git { url, commit: _ } = &package.registry {
        arguments.push(String::from_str("--git"));
        arguments.push(url.clone());
    }
    arguments.push(package.name.clone());
    assert(key_texts(arguments@) =~= install_command(package@));
    arguments
}

} // verus!
