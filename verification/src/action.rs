//! The privileged actions and the capability that each one asks for.

use vstd::prelude::*;

verus! {

/// An action that only an authorized account may perform.
#[derive(Debug, Clone, Copy, PartialEq, Eq, Structural)]
pub enum Action {
    OpenAdminMenu,
    CreateAdmin,
    ListAdmins,
    DeleteAdmin,
    AddProduct,
    UpdateProduct,
    RemoveProduct,
    AddVariant,
    UpdateVariant,
    UpdateWebsiteInfo,
    UploadImage,
    ViewCustomers,
}

/// The name of the capability that an action asks for.
pub open spec fn capability_of(action: Action) -> Seq<char> {
    match action {
        Action::OpenAdminMenu => "admin"@,
        Action::CreateAdmin => "admincreate"@,
        Action::ListAdmins => "adminlist"@,
        Action::DeleteAdmin => "admindelete"@,
        Action::AddProduct => "addproduct"@,
        Action::UpdateProduct => "updateproduct"@,
        Action::RemoveProduct => "removeproduct"@,
        Action::AddVariant => "addvariant"@,
        Action::UpdateVariant => "updatevariant"@,
        Action::UpdateWebsiteInfo => "websiteinfo"@,
        Action::UploadImage => "image"@,
        Action::ViewCustomers => "customer"@,
    }
}

impl Action {
    /// The name of the capability that this action asks for.
    pub fn capability(&self) -> (name: &'static str)
        ensures
            name@ == capability_of(*self),
    {
        match self {
            Action::OpenAdminMenu => "admin",
            Action::CreateAdmin => "admincreate",
            Action::ListAdmins => "adminlist",
            Action::DeleteAdmin => "admindelete",
            Action::AddProduct => "addproduct",
            Action::UpdateProduct => "updateproduct",
            Action::RemoveProduct => "removeproduct",
            Action::AddVariant => "addvariant",
            Action::UpdateVariant => "updatevariant",
            Action::UpdateWebsiteInfo => "websiteinfo",
            Action::UploadImage => "image",
            Action::ViewCustomers => "customer",
        }
    }
}

/// Two actions ask for the same capability only if they are the same action.
pub proof fn lemma_capability_names_differ(a: Action, b: Action)
    requires
        capability_of(a) == capability_of(b),
    ensures
        a == b,
{
    reveal_strlit("admin");
    reveal_strlit("admincreate");
    reveal_strlit("adminlist");
    reveal_strlit("admindelete");
    reveal_strlit("addproduct");
    reveal_strlit("updateproduct");
    reveal_strlit("removeproduct");
    reveal_strlit("addvariant");
    reveal_strlit("updatevariant");
    reveal_strlit("websiteinfo");
    reveal_strlit("image");
    reveal_strlit("customer");
    let x = capability_of(a);
    let y = capability_of(b);
    assert(x.len() == y.len());
    if a != b {
        assert(x[0] == y[0]);
        assert(x[3] == y[3]);
        assert(x[5] == y[5]);
        assert(x[6] == y[6]);
    }
}

} // verus!
