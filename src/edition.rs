//! The fixed table of supported editions of the package family.
use vstd::prelude::*;
use crate::text::str_equal;

verus! {

/// One of the four supported editions.
#[derive(Clone, Copy, Debug, PartialEq, Eq, Structural)]
pub enum Edition {
    Uwp,
    Beta,
    Education,
    EducationPreview,
}

/// The package name under which an edition appears in its manifest.
pub open spec fn package_name_spec(e: Edition) -> Seq<char> {
    match e {
        Edition::Uwp => "Microsoft.MinecraftUWP"@,
        Edition::Beta => "Microsoft.MinecraftWindowsBeta"@,
        Edition::Education => "Microsoft.MinecraftEducationEdition"@,
        Edition::EducationPreview => "Microsoft.MinecraftEducationPreview"@,
    }
}

/// The platform application user model id of an edition.
pub open spec fn app_user_model_id_spec(e: Edition) -> Seq<char> {
    match e {
        Edition::Uwp => "Microsoft.MinecraftUWP_8wekyb3d8bbwe!App"@,
        Edition::Beta => "Microsoft.MinecraftWindowsBeta_8wekyb3d8bbwe!App"@,
        Edition::Education =>
            "Microsoft.MinecraftEducationEdition_8wekyb3d8bbwe!Microsoft.MinecraftEducationEdition"@,
        Edition::EducationPreview =>
            "Microsoft.MinecraftEducationPreview_8wekyb3d8bbwe!Microsoft.MinecraftEducationEdition"@,
    }
}

/// The shell activation argument that launches an edition.
pub open spec fn shell_target_spec(e: Edition) -> Seq<char> {
    "shell:appsFolder\\"@ + app_user_model_id_spec(e)
}

/// The edition whose package name is `name`, if any.
pub open spec fn edition_named(name: Seq<char>) -> Option<Edition> {
    if name == package_name_spec(Edition::Uwp) {
        Some(Edition::Uwp)
    } else if name == package_name_spec(Edition::Beta) {
        Some(Edition::Beta)
    } else if name == package_name_spec(Edition::Education) {
        Some(Edition::Education)
    } else if name == package_name_spec(Edition::EducationPreview) {
        Some(Edition::EducationPreview)
    } else {
        None
    }
}

impl Edition {
    /// Looks up an edition by package name; unknown names give `None`.
    pub fn from_package_name(name: &str) -> (r: Option<Edition>)
        ensures
            r == edition_named(name@),
    {
        if str_equal(name, "Microsoft.MinecraftUWP") {
            Some(Edition::Uwp)
        } else if str_equal(name, "Microsoft.MinecraftWindowsBeta") {
            Some(Edition::Beta)
        } else if str_equal(name, "Microsoft.MinecraftEducationEdition") {
            Some(Edition::Education)
        } else if str_equal(name, "Microsoft.MinecraftEducationPreview") {
            Some(Edition::EducationPreview)
        } else {
            None
        }
    }

    /// The package name of this edition.
    pub fn package_name(&self) -> (r: String)
        ensures
            r@ == package_name_spec(*self),
    {
        match self {
            Edition::Uwp => String::from_str("Microsoft.MinecraftUWP"),
            Edition::Beta => String::from_str("Microsoft.MinecraftWindowsBeta"),
            Edition::Education => String::from_str("Microsoft.MinecraftEducationEdition"),
            Edition::EducationPreview => String::from_str("Microsoft.MinecraftEducationPreview"),
        }
    }

    /// The application user model id by which the registry is queried.
    pub fn app_user_model_id(&self) -> (r: String)
        ensures
            r@ == app_user_model_id_spec(*self),
    {
        match self {
            Edition::Uwp => String::from_str("Microsoft.MinecraftUWP_8wekyb3d8bbwe!App"),
            Edition::Beta => String::from_str("Microsoft.MinecraftWindowsBeta_8wekyb3d8bbwe!App"),
            Edition::Education => String::from_str(
                "Microsoft.MinecraftEducationEdition_8wekyb3d8bbwe!Microsoft.MinecraftEducationEdition",
            ),
            Edition::EducationPreview => String::from_str(
                "Microsoft.MinecraftEducationPreview_8wekyb3d8bbwe!Microsoft.MinecraftEducationEdition",
            ),
        }
    }

    /// The argument handed to the host shell to launch this edition.
    pub fn shell_target(&self) -> (r: String)
        ensures
            r@ == shell_target_spec(*self),
    {
        let mut target = String::from_str("shell:appsFolder\\");
        let id = self.app_user_model_id();
        target.append(id.as_str());
        target
    }
}

/// Every edition is found again under its own package name.
pub proof fn lemma_package_name_round_trip(e: Edition)
    ensures
        edition_named(package_name_spec(e)) == Some(e),
{
    reveal_strlit("Microsoft.MinecraftUWP");
    reveal_strlit("Microsoft.MinecraftWindowsBeta");
    reveal_strlit("Microsoft.MinecraftEducationEdition");
    reveal_strlit("Microsoft.MinecraftEducationPreview");
    assert("Microsoft.MinecraftUWP"@.len() == 22);
    assert("Microsoft.MinecraftWindowsBeta"@.len() == 30);
    assert("Microsoft.MinecraftEducationEdition"@.len() == 35);
    assert("Microsoft.MinecraftEducationPreview"@.len() == 35);
    assert("Microsoft.MinecraftEducationEdition"@[28] != "Microsoft.MinecraftEducationPreview"@[28]);
}

} // verus!
