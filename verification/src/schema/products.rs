//! The subgraph of products: its fields, and the resolvers that answer
//! them. The price of a product passes through the scalar codec in both
//! directions.

use crate::connection::ConnectionManager;
use crate::decimal::Decimal;
use crate::decimal::DecimalModel;
use crate::models::text_view;
use crate::models::Product;
use crate::models::ProductModel;
use crate::models::ProductPatch;
use crate::models::ProductPatchModel;
use crate::resolver::create_entity;
use crate::resolver::created;
use crate::resolver::delete_entity;
use crate::resolver::deleted;
use crate::resolver::entity_result;
use crate::resolver::find_entity;
use crate::resolver::flag_result;
use crate::resolver::is_generated_id;
use crate::resolver::listing_result;
use crate::resolver::looked_up;
use crate::resolver::no_handle;
use crate::resolver::random_id;
use crate::resolver::resolved;
use crate::resolver::surface;
use crate::resolver::unavailable;
use crate::resolver::update_entity;
use crate::resolver::updated;
use crate::resolver::ResolverError;
use crate::resolver::ResolverErrorModel;
use crate::scalars::parse_spec;
use crate::scalars::GraphQLBigDecimal;
use crate::scalars::ValidationError;
use crate::scalars::WireValue;
use crate::scalars::WireValueModel;
use crate::schema::field_models;
use crate::schema::Field;
use crate::schema::FieldModel;
use crate::schema::Resolver;
use crate::schema::Subgraph;
use crate::schema::SubgraphModel;
use crate::storage::key_value::scan_outcome;
use crate::storage::key_value::KeyValueAdapter;
use crate::storage::StorageAdapter;
use vstd::prelude::*;
use vstd::string::StringExecFns;

verus! {

/// The query fields of the subgraph of products.
pub open spec fn product_query_fields() -> Seq<FieldModel> {
    seq![
        FieldModel { name: "product"@, resolver: Resolver::Product },
        FieldModel { name: "getAllProducts"@, resolver: Resolver::GetAllProducts },
    ]
}

/// The mutation fields of the subgraph of products.
pub open spec fn product_mutation_fields() -> Seq<FieldModel> {
    seq![
        FieldModel { name: "addProduct"@, resolver: Resolver::AddProduct },
        FieldModel { name: "createProduct"@, resolver: Resolver::CreateProduct },
        FieldModel { name: "updateProduct"@, resolver: Resolver::UpdateProduct },
        FieldModel { name: "deleteProduct"@, resolver: Resolver::DeleteProduct },
    ]
}

/// The subgraph of products.
pub fn products_subgraph() -> (r: Subgraph)
    ensures
        r@ == (SubgraphModel {
            queries: product_query_fields(),
            mutations: product_mutation_fields(),
        }),
{
    Subgraph { queries: ProductQuery::fields(), mutations: ProductMutation::fields() }
}

/// The price that a wire value supplies for an update, if one is supplied.
pub open spec fn supplied_price(price: Option<WireValueModel>) -> Result<
    Option<DecimalModel>,
    ValidationError,
> {
    match price {
        Some(value) => match parse_spec(value) {
            Ok(d) => Ok(Some(d)),
            Err(error) => Err(error),
        },
        None => Ok(None),
    }
}

/// The view of a wire value that may be absent.
pub open spec fn wire_view(value: Option<WireValue>) -> Option<WireValueModel> {
    match value {
        Some(v) => Some(v@),
        None => None,
    }
}

/// The resolvers of the query fields of products.
#[derive(Debug, Default, Clone, Copy, PartialEq, Eq)]
pub struct ProductQuery;

impl ProductQuery {
    /// The query fields, each with its resolver.
    pub fn fields() -> (r: Vec<Field>)
        ensures
            field_models(r@) == product_query_fields(),
    {
        let mut fields: Vec<Field> = Vec::new();
        fields.push(Field { name: String::from_str("product"), resolver: Resolver::Product });
        fields.push(
            Field { name: String::from_str("getAllProducts"), resolver: Resolver::GetAllProducts },
        );
        assert(field_models(fields@) == product_query_fields());
        fields
    }

    /// The product with the given id.
    pub fn product<A: StorageAdapter<Product>>(
        &self,
        connections: &mut ConnectionManager<A>,
        id: &String,
    ) -> (r: Result<Product, ResolverError>)
        ensures
            final(connections).capacity() == old(connections).capacity(),
            final(connections).idle() == old(connections).idle(),
            looked_up::<Product, A>(old(connections).idle(), entity_result(r), id@),
    {
        find_entity(connections, id)
    }

    /// Every product that the set of a key-value store holds, in the order
    /// of its members. A member that describes no product is a backend
    /// failure.
    pub fn get_all_products(
        &self,
        connections: &mut ConnectionManager<KeyValueAdapter<Product>>,
    ) -> (r: Result<Vec<Product>, ResolverError>)
        ensures
            final(connections).capacity() == old(connections).capacity(),
            final(connections).idle() == old(connections).idle(),
            if old(connections).idle().len() == 0 {
                listing_result(r) == Err::<Seq<ProductModel>, ResolverErrorModel>(unavailable())
            } else {
                listing_result(r) == resolved(
                    scan_outcome::<Product>(old(connections).idle().last().members()),
                )
            },
    {
        match connections.acquire() {
            Some(handle) => {
                let products = handle.scan();
                let ghost lent = connections.idle();
                let _ = connections.release(handle);
                assert(lent.push(handle) == old(connections).idle());
                surface(products)
            },
            None => Err(no_handle()),
        }
    }

    /// The price of a product as it goes out on the wire: a string in
    /// canonical form.
    pub fn price_value(&self, product: &Product) -> (value: WireValue)
        ensures
            value@ == WireValueModel::String(product@.price.text()),
    {
        WireValue::String(product.price.to_text())
    }
}

/// The resolvers of the mutation fields of products.
#[derive(Debug, Default, Clone, Copy, PartialEq, Eq)]
pub struct ProductMutation;

impl ProductMutation {
    /// The mutation fields, each with its resolver.
    pub fn fields() -> (r: Vec<Field>)
        ensures
            field_models(r@) == product_mutation_fields(),
    {
        let mut fields: Vec<Field> = Vec::new();
        fields.push(Field { name: String::from_str("addProduct"), resolver: Resolver::AddProduct });
        fields.push(
            Field { name: String::from_str("createProduct"), resolver: Resolver::CreateProduct },
        );
        fields.push(
            Field { name: String::from_str("updateProduct"), resolver: Resolver::UpdateProduct },
        );
        fields.push(
            Field { name: String::from_str("deleteProduct"), resolver: Resolver::DeleteProduct },
        );
        assert(field_models(fields@) == product_mutation_fields());
        fields
    }

    /// Stores a new product under an id that the server generates. A price
    /// that is no decimal is refused before anything is stored.
    pub fn add_product<A: StorageAdapter<Product>>(
        &self,
        connections: &mut ConnectionManager<A>,
        name: String,
        price: WireValue,
    ) -> (r: Result<Product, ResolverError>)
        ensures
            final(connections).capacity() == old(connections).capacity(),
            match parse_spec(price@) {
                Ok(decimal) => exists|id: Seq<char>|
                    is_generated_id(id) && #[trigger] created::<Product, A>(
                        old(connections).idle(),
                        final(connections).idle(),
                        entity_result(r),
                        ProductModel { id, name: name@, price: decimal },
                    ),
                Err(error) => {
                    &&& entity_result(r) == Err::<ProductModel, ResolverErrorModel>(
                        ResolverErrorModel::Validation(error),
                    )
                    &&& final(connections).idle() == old(connections).idle()
                },
            },
    {
        let ghost decimal = parse_spec(price@);
        let id = random_id();
        let ghost chosen = id@;
        let r = self.create_product(connections, id, name, price);
        proof {
            if let Ok(d) = decimal {
                assert(created::<Product, A>(
                    old(connections).idle(),
                    connections.idle(),
                    entity_result(r),
                    ProductModel { id: chosen, name: name@, price: d },
                ));
            }
        }
        r
    }

    /// Stores a new product under the id that the caller supplied. A price
    /// that is no decimal is refused before anything is stored.
    pub fn create_product<A: StorageAdapter<Product>>(
        &self,
        connections: &mut ConnectionManager<A>,
        id: String,
        name: String,
        price: WireValue,
    ) -> (r: Result<Product, ResolverError>)
        ensures
            final(connections).capacity() == old(connections).capacity(),
            match parse_spec(price@) {
                Ok(decimal) => created::<Product, A>(
                    old(connections).idle(),
                    final(connections).idle(),
                    entity_result(r),
                    ProductModel { id: id@, name: name@, price: decimal },
                ),
                Err(error) => {
                    &&& entity_result(r) == Err::<ProductModel, ResolverErrorModel>(
                        ResolverErrorModel::Validation(error),
                    )
                    &&& final(connections).idle() == old(connections).idle()
                },
            },
    {
        match GraphQLBigDecimal::parse(price) {
            Ok(decimal) => create_entity(connections, Product { id, name, price: decimal.0 }),
            Err(error) => Err(ResolverError::Validation(error)),
        }
    }

    /// Overwrites the supplied fields of the product with the given id. A
    /// price that is no decimal is refused before anything is changed.
    pub fn update_product<A: StorageAdapter<Product>>(
        &self,
        connections: &mut ConnectionManager<A>,
        id: &String,
        name: Option<String>,
        price: Option<WireValue>,
    ) -> (r: Result<Product, ResolverError>)
        ensures
            final(connections).capacity() == old(connections).capacity(),
            match supplied_price(wire_view(price)) {
                Ok(decimal) => updated::<Product, A>(
                    old(connections).idle(),
                    final(connections).idle(),
                    entity_result(r),
                    id@,
                    ProductPatchModel { name: text_view(name), price: decimal },
                ),
                Err(error) => {
                    &&& entity_result(r) == Err::<ProductModel, ResolverErrorModel>(
                        ResolverErrorModel::Validation(error),
                    )
                    &&& final(connections).idle() == old(connections).idle()
                },
            },
    {
        let decimal: Option<Decimal> = match price {
            Some(value) => match GraphQLBigDecimal::parse(value) {
                Ok(decimal) => Some(decimal.0),
                Err(error) => {
                    return Err(ResolverError::Validation(error));
                },
            },
            None => None,
        };
        let patch = ProductPatch { name, price: decimal };
        update_entity(connections, id, &patch)
    }

    /// Removes the product with the given id, and says whether there was
    /// one.
    pub fn delete_product<A: StorageAdapter<Product>>(
        &self,
        connections: &mut ConnectionManager<A>,
        id: &String,
    ) -> (r: Result<bool, ResolverError>)
        ensures
            final(connections).capacity() == old(connections).capacity(),
            deleted::<Product, A>(
                old(connections).idle(),
                final(connections).idle(),
                flag_result(r),
                id@,
            ),
    {
        delete_entity(connections, id)
    }
}

} // verus!
