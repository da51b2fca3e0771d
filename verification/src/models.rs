//! The entities of the domain, and the partial updates that callers may
//! apply to them.

use crate::decimal::Decimal;
use crate::decimal::DecimalModel;
use vstd::prelude::*;

verus! {

/// What the storage and resolver layers need of an entity type: an id by
/// which alone it is addressed, a partial update, and the name of the
/// collection that holds its records.
pub trait Entity: View + Sized {
    /// A partial update: the fields that a caller supplied.
    type Patch: View;

    /// The id of an entity.
    spec fn id_of(model: Self::V) -> Seq<char>;

    /// The entity with another id and every other field unchanged.
    spec fn with_id_of(model: Self::V, id: Seq<char>) -> Self::V;

    /// The entity after a partial update: supplied fields overwrite, absent
    /// fields are preserved, and the id stays.
    spec fn patched(model: Self::V, patch: <Self::Patch as View>::V) -> Self::V;

    /// The name of the collection, set or table of the entity type.
    spec fn collection_spec() -> Seq<char>;

    proof fn lemma_with_id(model: Self::V, id: Seq<char>)
        ensures
            Self::id_of(Self::with_id_of(model, id)) == id,
            Self::with_id_of(model, Self::id_of(model)) == model,
    ;

    proof fn lemma_patch_keeps_id(model: Self::V, patch: <Self::Patch as View>::V)
        ensures
            Self::id_of(Self::patched(model, patch)) == Self::id_of(model),
    ;

    fn id(&self) -> (r: &String)
        ensures
            r@ == Self::id_of(self@),
    ;

    fn with_id(self, id: String) -> (r: Self)
        ensures
            r@ == Self::with_id_of(self@, id@),
    ;

    fn duplicate(&self) -> (r: Self)
        ensures
            r@ == self@,
    ;

    fn apply(&self, patch: &Self::Patch) -> (r: Self)
        ensures
            r@ == Self::patched(self@, patch@),
    ;

    fn collection() -> (r: &'static str)
        ensures
            r@ == Self::collection_spec(),
    ;
}

/// A user.
#[derive(Debug, PartialEq, Eq)]
pub struct User {
    pub id: String,
    pub name: String,
    pub email: String,
}

/// The mathematical value of a [`User`].
pub struct UserModel {
    pub id: Seq<char>,
    pub name: Seq<char>,
    pub email: Seq<char>,
}

impl View for User {
    type V = UserModel;

    open spec fn view(&self) -> UserModel {
        UserModel { id: self.id@, name: self.name@, email: self.email@ }
    }
}

/// The fields of a user that an update may supply.
#[derive(Debug, PartialEq, Eq)]
pub struct UserPatch {
    pub name: Option<String>,
    pub email: Option<String>,
}

/// The mathematical value of a [`UserPatch`].
pub struct UserPatchModel {
    pub name: Option<Seq<char>>,
    pub email: Option<Seq<char>>,
}

/// The view of a string that may be absent.
pub open spec fn text_view(text: Option<String>) -> Option<Seq<char>> {
    match text {
        Some(t) => Some(t@),
        None => None,
    }
}

impl View for UserPatch {
    type V = UserPatchModel;

    open spec fn view(&self) -> UserPatchModel {
        UserPatchModel { name: text_view(self.name), email: text_view(self.email) }
    }
}

/// A copy of a string where the patch supplies one, and of the present
/// value where it does not.
fn patched_text(present: &String, supplied: &Option<String>) -> (r: String)
    ensures
        r@ == match text_view(*supplied) {
            Some(t) => t,
            None => present@,
        },
{
    match supplied {
        Some(t) => t.clone(),
        None => present.clone(),
    }
}

impl Entity for User {
    type Patch = UserPatch;

    open spec fn id_of(model: UserModel) -> Seq<char> {
        model.id
    }

    open spec fn with_id_of(model: UserModel, id: Seq<char>) -> UserModel {
        UserModel { id, ..model }
    }

    open spec fn patched(model: UserModel, patch: UserPatchModel) -> UserModel {
        UserModel {
            id: model.id,
            name: match patch.name {
                Some(name) => name,
                None => model.name,
            },
            email: match patch.email {
                Some(email) => email,
                None => model.email,
            },
        }
    }

    open spec fn collection_spec() -> Seq<char> {
        "users"@
    }

    proof fn lemma_with_id(model: UserModel, id: Seq<char>) {
    }

    proof fn lemma_patch_keeps_id(model: UserModel, patch: UserPatchModel) {
    }

    fn id(&self) -> (r: &String) {
        &self.id
    }

    fn with_id(self, id: String) -> (r: User) {
        User { id, name: self.name, email: self.email }
    }

    fn duplicate(&self) -> (r: User) {
        User { id: self.id.clone(), name: self.name.clone(), email: self.email.clone() }
    }

    fn apply(&self, patch: &UserPatch) -> (r: User) {
        User {
            id: self.id.clone(),
            name: patched_text(&self.name, &patch.name),
            email: patched_text(&self.email, &patch.email),
        }
    }

    fn collection() -> (r: &'static str) {
        "users"
    }
}

/// A product.
#[derive(Debug, PartialEq, Eq)]
pub struct Product {
    pub id: String,
    pub name: String,
    pub price: Decimal,
}

/// The mathematical value of a [`Product`].
pub struct ProductModel {
    pub id: Seq<char>,
    pub name: Seq<char>,
    pub price: DecimalModel,
}

impl View for Product {
    type V = ProductModel;

    open spec fn view(&self) -> ProductModel {
        ProductModel { id: self.id@, name: self.name@, price: self.price@ }
    }
}

/// The fields of a product that an update may supply.
#[derive(Debug, PartialEq, Eq)]
pub struct ProductPatch {
    pub name: Option<String>,
    pub price: Option<Decimal>,
}

/// The mathematical value of a [`ProductPatch`].
pub struct ProductPatchModel {
    pub name: Option<Seq<char>>,
    pub price: Option<DecimalModel>,
}

impl View for ProductPatch {
    type V = ProductPatchModel;

    open spec fn view(&self) -> ProductPatchModel {
        ProductPatchModel {
            name: text_view(self.name),
            price: match self.price {
                Some(price) => Some(price@),
                None => None,
            },
        }
    }
}

impl Entity for Product {
    type Patch = ProductPatch;

    open spec fn id_of(model: ProductModel) -> Seq<char> {
        model.id
    }

    open spec fn with_id_of(model: ProductModel, id: Seq<char>) -> ProductModel {
        ProductModel { id, ..model }
    }

    open spec fn patched(model: ProductModel, patch: ProductPatchModel) -> ProductModel {
        ProductModel {
            id: model.id,
            name: match patch.name {
                Some(name) => name,
                None => model.name,
            },
            price: match patch.price {
                Some(price) => price,
                None => model.price,
            },
        }
    }

    open spec fn collection_spec() -> Seq<char> {
        "products"@
    }

    proof fn lemma_with_id(model: ProductModel, id: Seq<char>) {
    }

    proof fn lemma_patch_keeps_id(model: ProductModel, patch: ProductPatchModel) {
    }

    fn id(&self) -> (r: &String) {
        &self.id
    }

    fn with_id(self, id: String) -> (r: Product) {
        Product { id, name: self.name, price: self.price }
    }

    fn duplicate(&self) -> (r: Product) {
        Product { id: self.id.clone(), name: self.name.clone(), price: self.price.duplicate() }
    }

    fn apply(&self, patch: &ProductPatch) -> (r: Product) {
        Product {
            id: self.id.clone(),
            name: patched_text(&self.name, &patch.name),
            price: match &patch.price {
                Some(price) => price.duplicate(),
                None => self.price.duplicate(),
            },
        }
    }

    fn collection() -> (r: &'static str) {
        "products"
    }
}

/// A partial update of a user changes exactly the fields that it supplies:
/// the id stays, and the name and the email each become what was supplied
/// or stay what they were.
pub proof fn lemma_user_patch(user: UserModel, patch: UserPatchModel)
    ensures
        User::patched(user, patch).id == user.id,
        patch.name matches Some(name) ==> User::patched(user, patch).name == name,
        patch.name is None ==> User::patched(user, patch).name == user.name,
        patch.email matches Some(email) ==> User::patched(user, patch).email == email,
        patch.email is None ==> User::patched(user, patch).email == user.email,
{
}

/// A partial update of a product changes exactly the fields that it
/// supplies: the id stays, and the name and the price each become what was
/// supplied or stay what they were.
pub proof fn lemma_product_patch(product: ProductModel, patch: ProductPatchModel)
    ensures
        Product::patched(product, patch).id == product.id,
        patch.name matches Some(name) ==> Product::patched(product, patch).name == name,
        patch.name is None ==> Product::patched(product, patch).name == product.name,
        patch.price matches Some(price) ==> Product::patched(product, patch).price == price,
        patch.price is None ==> Product::patched(product, patch).price == product.price,
{
}

} // verus!
