//! The schema composer: it merges the query fields and the mutation fields
//! of the subgraphs into one query root and one mutation root, and refuses
//! subgraphs whose field names collide.

pub mod products;
pub mod users;

use crate::schema::products::product_mutation_fields;
use crate::schema::products::product_query_fields;
use crate::schema::products::products_subgraph;
use crate::schema::users::user_mutation_fields;
use crate::schema::users::user_query_fields;
use crate::schema::users::users_subgraph;
use vstd::pervasive::unreached;
use vstd::prelude::*;

verus! {

/// The resolver functions that a field can be bound to.
#[derive(Debug, Clone, Copy, PartialEq, Eq, Structural)]
pub enum Resolver {
    User,
    GetAllUsers,
    AddUser,
    CreateUser,
    UpdateUser,
    DeleteUser,
    Product,
    GetAllProducts,
    AddProduct,
    CreateProduct,
    UpdateProduct,
    DeleteProduct,
}

/// A field of a root type: its name, and the resolver that answers it.
#[derive(Debug, PartialEq, Eq)]
pub struct Field {
    pub name: String,
    pub resolver: Resolver,
}

/// The mathematical value of a [`Field`].
pub struct FieldModel {
    pub name: Seq<char>,
    pub resolver: Resolver,
}

impl View for Field {
    type V = FieldModel;

    open spec fn view(&self) -> FieldModel {
        FieldModel { name: self.name@, resolver: self.resolver }
    }
}

/// The mathematical values of fields.
pub open spec fn field_models(fields: Seq<Field>) -> Seq<FieldModel> {
    fields.map_values(|field: Field| field@)
}

/// What one subgraph declares: its query fields and its mutation fields.
#[derive(Debug, PartialEq, Eq)]
pub struct Subgraph {
    pub queries: Vec<Field>,
    pub mutations: Vec<Field>,
}

/// The mathematical value of a [`Subgraph`].
pub struct SubgraphModel {
    pub queries: Seq<FieldModel>,
    pub mutations: Seq<FieldModel>,
}

impl View for Subgraph {
    type V = SubgraphModel;

    open spec fn view(&self) -> SubgraphModel {
        SubgraphModel {
            queries: field_models(self.queries@),
            mutations: field_models(self.mutations@),
        }
    }
}

/// The mathematical values of subgraphs.
pub open spec fn subgraph_models(subgraphs: Seq<Subgraph>) -> Seq<SubgraphModel> {
    subgraphs.map_values(|subgraph: Subgraph| subgraph@)
}

/// The query fields of all subgraphs, in order.
pub open spec fn all_queries(subgraphs: Seq<SubgraphModel>) -> Seq<FieldModel>
    decreases subgraphs.len(),
{
    if subgraphs.len() == 0 {
        Seq::empty()
    } else {
        all_queries(subgraphs.drop_last()) + subgraphs.last().queries
    }
}

/// The mutation fields of all subgraphs, in order.
pub open spec fn all_mutations(subgraphs: Seq<SubgraphModel>) -> Seq<FieldModel>
    decreases subgraphs.len(),
{
    if subgraphs.len() == 0 {
        Seq::empty()
    } else {
        all_mutations(subgraphs.drop_last()) + subgraphs.last().mutations
    }
}

/// Every field that the subgraphs declare: the query fields, then the
/// mutation fields.
pub open spec fn declared(subgraphs: Seq<SubgraphModel>) -> Seq<FieldModel> {
    all_queries(subgraphs) + all_mutations(subgraphs)
}

/// Whether the field at `index` has the name of a field before it.
pub open spec fn repeats(fields: Seq<FieldModel>, index: int) -> bool {
    exists|earlier: int| 0 <= earlier < index && #[trigger] fields[earlier].name == fields[index].name
}

/// No two fields have one name.
pub open spec fn distinct_names(fields: Seq<FieldModel>) -> bool {
    forall|index: int| 0 <= index < fields.len() ==> !#[trigger] repeats(fields, index)
}

/// Whether `index` is the place of the first field that has the name of a
/// field before it.
pub open spec fn first_repeat(fields: Seq<FieldModel>, index: int) -> bool {
    &&& 0 <= index < fields.len()
    &&& repeats(fields, index)
    &&& forall|before: int| 0 <= before < index ==> !#[trigger] repeats(fields, before)
}

/// The resolver of the first field with the given name.
pub open spec fn field_named(fields: Seq<FieldModel>, name: Seq<char>) -> Option<Resolver>
    decreases fields.len(),
{
    if fields.len() == 0 {
        None
    } else if fields[0].name == name {
        Some(fields[0].resolver)
    } else {
        field_named(fields.drop_first(), name)
    }
}

/// Why subgraphs could not be composed.
#[derive(Debug, PartialEq, Eq)]
pub enum CompositionError {
    /// Two fields have this name.
    DuplicateField(String),
}

/// A copy of a field.
fn copy_field(field: &Field) -> (r: Field)
    ensures
        r@ == field@,
{
    Field { name: field.name.clone(), resolver: field.resolver }
}

/// Appends copies of fields.
fn append_fields(target: &mut Vec<Field>, fields: &Vec<Field>)
    ensures
        field_models(final(target)@) == field_models(old(target)@) + field_models(fields@),
{
    let ghost before = field_models(target@);
    let mut i: usize = 0;
    while i < fields.len()
        invariant
            i <= fields.len(),
            field_models(target@) == before + field_models(fields@).take(i as int),
        decreases fields.len() - i,
    {
        let ghost so_far = field_models(target@);
        target.push(copy_field(&fields[i]));
        proof {
            assert(field_models(target@) == so_far.push(fields@[i as int]@));
            assert(field_models(fields@).take(i + 1) == field_models(fields@).take(i as int).push(
                fields@[i as int]@,
            ));
        }
        i += 1;
    }
    assert(field_models(fields@).take(i as int) == field_models(fields@));
}

/// The place of the first field that has the name of a field before it.
fn find_repeat(fields: &Vec<Field>) -> (r: Option<usize>)
    ensures
        match r {
            Some(index) => first_repeat(field_models(fields@), index as int),
            None => distinct_names(field_models(fields@)),
        },
{
    let ghost models = field_models(fields@);
    let mut index: usize = 0;
    while index < fields.len()
        invariant
            index <= fields.len(),
            models == field_models(fields@),
            forall|before: int| 0 <= before < index ==> !#[trigger] repeats(models, before),
        decreases fields.len() - index,
    {
        let mut earlier: usize = 0;
        while earlier < index
            invariant
                earlier <= index < fields.len(),
                models == field_models(fields@),
                forall|before: int| 0 <= before < index ==> !#[trigger] repeats(models, before),
                forall|e: int| 0 <= e < earlier ==> #[trigger] models[e].name != models[index as int].name,
            decreases index - earlier,
        {
            if fields[earlier].name == fields[index].name {
                assert(models[earlier as int].name == models[index as int].name);
                return Some(index);
            }
            earlier += 1;
        }
        index += 1;
    }
    None
}

/// The merged query root: the query fields of all subgraphs.
#[derive(Debug, PartialEq, Eq)]
pub struct QueryRoot {
    fields: Vec<Field>,
}

/// The merged mutation root: the mutation fields of all subgraphs.
#[derive(Debug, PartialEq, Eq)]
pub struct MutationRoot {
    fields: Vec<Field>,
}

/// The resolver of the first of the fields that has the given name.
fn resolver_named(fields: &Vec<Field>, name: &String) -> (r: Option<Resolver>)
    ensures
        r == field_named(field_models(fields@), name@),
{
    let ghost models = field_models(fields@);
    let mut i: usize = 0;
    assert(models.skip(0) == models);
    while i < fields.len()
        invariant
            i <= fields.len(),
            models == field_models(fields@),
            field_named(models, name@) == field_named(models.skip(i as int), name@),
        decreases fields.len() - i,
    {
        proof {
            assert(models.skip(i as int).drop_first() == models.skip(i + 1));
            assert(models.skip(i as int)[0] == fields@[i as int]@);
        }
        if fields[i].name == *name {
            return Some(fields[i].resolver);
        }
        i += 1;
    }
    None
}

impl QueryRoot {
    /// The fields, in the order of the subgraphs.
    pub closed spec fn fields(&self) -> Seq<FieldModel> {
        field_models(self.fields@)
    }

    /// The resolver that answers the query field with the given name.
    pub fn resolver_of(&self, name: &String) -> (r: Option<Resolver>)
        ensures
            r == field_named(self.fields(), name@),
    {
        resolver_named(&self.fields, name)
    }

    /// The number of fields.
    pub fn len(&self) -> (r: usize)
        ensures
            r == self.fields().len(),
    {
        self.fields.len()
    }
}

impl MutationRoot {
    /// The fields, in the order of the subgraphs.
    pub closed spec fn fields(&self) -> Seq<FieldModel> {
        field_models(self.fields@)
    }

    /// The resolver that answers the mutation field with the given name.
    pub fn resolver_of(&self, name: &String) -> (r: Option<Resolver>)
        ensures
            r == field_named(self.fields(), name@),
    {
        resolver_named(&self.fields, name)
    }

    /// The number of fields.
    pub fn len(&self) -> (r: usize)
        ensures
            r == self.fields().len(),
    {
        self.fields.len()
    }
}

/// The composed schema: both roots, bound to the context that every
/// resolver receives. It is built once and never changed.
pub struct AppSchema<C> {
    query: QueryRoot,
    mutation: MutationRoot,
    context: C,
}

impl<C> AppSchema<C> {
    #[verifier::type_invariant]
    closed spec fn unique_names(self) -> bool {
        distinct_names(self.query.fields() + self.mutation.fields())
    }

    /// The bound context.
    pub closed spec fn bound(&self) -> C {
        self.context
    }

    /// The fields of the query root.
    pub closed spec fn query_fields(&self) -> Seq<FieldModel> {
        self.query.fields()
    }

    /// The fields of the mutation root.
    pub closed spec fn mutation_fields(&self) -> Seq<FieldModel> {
        self.mutation.fields()
    }

    /// The query root; no two fields of the schema have one name.
    pub fn query(&self) -> (r: &QueryRoot)
        ensures
            r.fields() == self.query_fields(),
            distinct_names(self.query_fields() + self.mutation_fields()),
    {
        proof {
            use_type_invariant(self);
        }
        &self.query
    }

    /// The mutation root; no two fields of the schema have one name.
    pub fn mutation(&self) -> (r: &MutationRoot)
        ensures
            r.fields() == self.mutation_fields(),
            distinct_names(self.query_fields() + self.mutation_fields()),
    {
        proof {
            use_type_invariant(self);
        }
        &self.mutation
    }

    /// The context that every resolver receives.
    pub fn context(&self) -> (r: &C)
        ensures
            *r == self.bound(),
    {
        &self.context
    }
}

/// Merges the fields of the subgraphs into one schema and binds the
/// context to it. Composition fails where two fields have one name, with
/// the name of the first field that repeats an earlier one.
pub fn compose<C>(subgraphs: &Vec<Subgraph>, context: C) -> (r: Result<
    AppSchema<C>,
    CompositionError,
>)
    ensures
        match r {
            Ok(schema) => {
                &&& distinct_names(declared(subgraph_models(subgraphs@)))
                &&& schema.query_fields() == all_queries(subgraph_models(subgraphs@))
                &&& schema.mutation_fields() == all_mutations(subgraph_models(subgraphs@))
                &&& schema.bound() == context
            },
            Err(CompositionError::DuplicateField(name)) => exists|index: int|
                #[trigger] first_repeat(declared(subgraph_models(subgraphs@)), index) && name@
                    == declared(subgraph_models(subgraphs@))[index].name,
        },
{
    let ghost models = subgraph_models(subgraphs@);
    let mut queries: Vec<Field> = Vec::new();
    let mut mutations: Vec<Field> = Vec::new();
    let mut i: usize = 0;
    while i < subgraphs.len()
        invariant
            i <= subgraphs.len(),
            models == subgraph_models(subgraphs@),
            field_models(queries@) == all_queries(models.take(i as int)),
            field_models(mutations@) == all_mutations(models.take(i as int)),
        decreases subgraphs.len() - i,
    {
        proof {
            assert(models.take(i + 1).drop_last() == models.take(i as int));
            assert(models.take(i + 1).last() == subgraphs@[i as int]@);
        }
        append_fields(&mut queries, &subgraphs[i].queries);
        append_fields(&mut mutations, &subgraphs[i].mutations);
        i += 1;
    }
    assert(models.take(i as int) == models);
    let mut all: Vec<Field> = Vec::new();
    append_fields(&mut all, &queries);
    append_fields(&mut all, &mutations);
    assert(field_models(all@) == declared(models));
    match find_repeat(&all) {
        Some(index) => {
            let name = all[index].name.clone();
            assert(first_repeat(declared(models), index as int));
            Err(CompositionError::DuplicateField(name))
        },
        None => Ok(
            AppSchema {
                query: QueryRoot { fields: queries },
                mutation: MutationRoot { fields: mutations },
                context,
            },
        ),
    }
}

/// Where the query fields of a subgraph start among all query fields.
pub open spec fn query_offset(subgraphs: Seq<SubgraphModel>, subgraph: int) -> int {
    all_queries(subgraphs.take(subgraph)).len() as int
}

/// Where the mutation fields of a subgraph start among all mutation
/// fields.
pub open spec fn mutation_offset(subgraphs: Seq<SubgraphModel>, subgraph: int) -> int {
    all_mutations(subgraphs.take(subgraph)).len() as int
}

/// Every query field of every subgraph is a field of the merged query
/// root, at its place.
pub proof fn lemma_query_merged(subgraphs: Seq<SubgraphModel>, subgraph: int, field: int)
    requires
        0 <= subgraph < subgraphs.len(),
        0 <= field < subgraphs[subgraph].queries.len(),
    ensures
        0 <= query_offset(subgraphs, subgraph) + field < all_queries(subgraphs).len(),
        all_queries(subgraphs)[query_offset(subgraphs, subgraph) + field]
            == subgraphs[subgraph].queries[field],
    decreases subgraphs.len(),
{
    let front = subgraphs.drop_last();
    if subgraph == subgraphs.len() - 1 {
        assert(subgraphs.take(subgraph) == front);
    } else {
        lemma_query_merged(front, subgraph, field);
        assert(front.take(subgraph) == subgraphs.take(subgraph));
    }
}

/// Every mutation field of every subgraph is a field of the merged
/// mutation root, at its place.
pub proof fn lemma_mutation_merged(subgraphs: Seq<SubgraphModel>, subgraph: int, field: int)
    requires
        0 <= subgraph < subgraphs.len(),
        0 <= field < subgraphs[subgraph].mutations.len(),
    ensures
        0 <= mutation_offset(subgraphs, subgraph) + field < all_mutations(subgraphs).len(),
        all_mutations(subgraphs)[mutation_offset(subgraphs, subgraph) + field]
            == subgraphs[subgraph].mutations[field],
    decreases subgraphs.len(),
{
    let front = subgraphs.drop_last();
    if subgraph == subgraphs.len() - 1 {
        assert(subgraphs.take(subgraph) == front);
    } else {
        lemma_mutation_merged(front, subgraph, field);
        assert(front.take(subgraph) == subgraphs.take(subgraph));
    }
}

/// Among fields with distinct names, the name of a field leads to its
/// resolver.
pub proof fn lemma_field_found(fields: Seq<FieldModel>, index: int)
    requires
        distinct_names(fields),
        0 <= index < fields.len(),
    ensures
        field_named(fields, fields[index].name) == Some(fields[index].resolver),
    decreases fields.len(),
{
    if index > 0 {
        let rest = fields.drop_first();
        assert(fields[0].name != fields[index].name) by {
            assert(!repeats(fields, index));
        }
        assert forall|i: int| 0 <= i < rest.len() implies !#[trigger] repeats(rest, i) by {
            assert(!repeats(fields, i + 1));
            if repeats(rest, i) {
                let earlier = choose|earlier: int|
                    0 <= earlier < i && #[trigger] rest[earlier].name == rest[i].name;
                assert(fields[earlier + 1].name == fields[i + 1].name);
            }
        }
        lemma_field_found(rest, index - 1);
    }
}

/// Fields that stand next to each other among fields with distinct names
/// have distinct names themselves.
pub proof fn lemma_distinct_parts(left: Seq<FieldModel>, right: Seq<FieldModel>)
    requires
        distinct_names(left + right),
    ensures
        distinct_names(left),
        distinct_names(right),
{
    let all = left + right;
    assert forall|i: int| 0 <= i < left.len() implies !#[trigger] repeats(left, i) by {
        assert(!repeats(all, i));
        if repeats(left, i) {
            let earlier = choose|earlier: int|
                0 <= earlier < i && #[trigger] left[earlier].name == left[i].name;
            assert(all[earlier].name == all[i].name);
        }
    }
    assert forall|i: int| 0 <= i < right.len() implies !#[trigger] repeats(right, i) by {
        assert(!repeats(all, left.len() + i));
        if repeats(right, i) {
            let earlier = choose|earlier: int|
                0 <= earlier < i && #[trigger] right[earlier].name == right[i].name;
            assert(all[left.len() + earlier].name == all[left.len() + i].name);
        }
    }
}

/// Where no two declared fields have one name, the merged schema answers
/// for every query field of every subgraph with the resolver that the
/// subgraph bound to it.
pub proof fn lemma_merged_query_answers(subgraphs: Seq<SubgraphModel>, subgraph: int, field: int)
    requires
        distinct_names(declared(subgraphs)),
        0 <= subgraph < subgraphs.len(),
        0 <= field < subgraphs[subgraph].queries.len(),
    ensures
        field_named(all_queries(subgraphs), subgraphs[subgraph].queries[field].name) == Some(
            subgraphs[subgraph].queries[field].resolver,
        ),
{
    lemma_distinct_parts(all_queries(subgraphs), all_mutations(subgraphs));
    lemma_query_merged(subgraphs, subgraph, field);
    lemma_field_found(all_queries(subgraphs), query_offset(subgraphs, subgraph) + field);
}

/// Where no two declared fields have one name, the merged schema answers
/// for every mutation field of every subgraph with the resolver that the
/// subgraph bound to it.
pub proof fn lemma_merged_mutation_answers(
    subgraphs: Seq<SubgraphModel>,
    subgraph: int,
    field: int,
)
    requires
        distinct_names(declared(subgraphs)),
        0 <= subgraph < subgraphs.len(),
        0 <= field < subgraphs[subgraph].mutations.len(),
    ensures
        field_named(all_mutations(subgraphs), subgraphs[subgraph].mutations[field].name) == Some(
            subgraphs[subgraph].mutations[field].resolver,
        ),
{
    lemma_distinct_parts(all_queries(subgraphs), all_mutations(subgraphs));
    lemma_mutation_merged(subgraphs, subgraph, field);
    lemma_field_found(all_mutations(subgraphs), mutation_offset(subgraphs, subgraph) + field);
}

/// Two subgraphs that both declare a query field of one name cannot be
/// composed.
pub proof fn lemma_query_collision_refused(
    subgraphs: Seq<SubgraphModel>,
    first: int,
    first_field: int,
    second: int,
    second_field: int,
)
    requires
        0 <= first < second < subgraphs.len(),
        0 <= first_field < subgraphs[first].queries.len(),
        0 <= second_field < subgraphs[second].queries.len(),
        subgraphs[first].queries[first_field].name == subgraphs[second].queries[second_field].name,
    ensures
        !distinct_names(declared(subgraphs)),
{
    lemma_query_merged(subgraphs, first, first_field);
    lemma_query_merged(subgraphs, second, second_field);
    lemma_query_merged(subgraphs.take(second), first, first_field);
    assert(subgraphs.take(second).take(first) == subgraphs.take(first));
    let all = declared(subgraphs);
    let a = query_offset(subgraphs, first) + first_field;
    let b = query_offset(subgraphs, second) + second_field;
    assert(a < b);
    assert(all[a].name == all[b].name);
    assert(repeats(all, b));
}

/// Two subgraphs that both declare a mutation field of one name cannot be
/// composed.
pub proof fn lemma_mutation_collision_refused(
    subgraphs: Seq<SubgraphModel>,
    first: int,
    first_field: int,
    second: int,
    second_field: int,
)
    requires
        0 <= first < second < subgraphs.len(),
        0 <= first_field < subgraphs[first].mutations.len(),
        0 <= second_field < subgraphs[second].mutations.len(),
        subgraphs[first].mutations[first_field].name
            == subgraphs[second].mutations[second_field].name,
    ensures
        !distinct_names(declared(subgraphs)),
{
    lemma_mutation_merged(subgraphs, first, first_field);
    lemma_mutation_merged(subgraphs, second, second_field);
    lemma_mutation_merged(subgraphs.take(second), first, first_field);
    assert(subgraphs.take(second).take(first) == subgraphs.take(first));
    let all = declared(subgraphs);
    let start = all_queries(subgraphs).len() as int;
    let a = start + mutation_offset(subgraphs, first) + first_field;
    let b = start + mutation_offset(subgraphs, second) + second_field;
    assert(a < b);
    assert(all[a].name == all[b].name);
    assert(repeats(all, b));
}

/// A query field and a mutation field of one name cannot be composed,
/// whichever subgraphs declare them.
pub proof fn lemma_cross_collision_refused(
    subgraphs: Seq<SubgraphModel>,
    first: int,
    query_field: int,
    second: int,
    mutation_field: int,
)
    requires
        0 <= first < subgraphs.len(),
        0 <= second < subgraphs.len(),
        0 <= query_field < subgraphs[first].queries.len(),
        0 <= mutation_field < subgraphs[second].mutations.len(),
        subgraphs[first].queries[query_field].name
            == subgraphs[second].mutations[mutation_field].name,
    ensures
        !distinct_names(declared(subgraphs)),
{
    lemma_query_merged(subgraphs, first, query_field);
    lemma_mutation_merged(subgraphs, second, mutation_field);
    let all = declared(subgraphs);
    let a = query_offset(subgraphs, first) + query_field;
    let b = all_queries(subgraphs).len() + mutation_offset(subgraphs, second) + mutation_field;
    assert(all[a].name == all[b].name);
    assert(repeats(all, b));
}

/// The fields of a subgraph start where those of the subgraph before it
/// end.
pub proof fn lemma_offset_step(subgraphs: Seq<SubgraphModel>, subgraph: int)
    requires
        0 <= subgraph < subgraphs.len(),
    ensures
        query_offset(subgraphs, subgraph + 1) == query_offset(subgraphs, subgraph)
            + subgraphs[subgraph].queries.len(),
        mutation_offset(subgraphs, subgraph + 1) == mutation_offset(subgraphs, subgraph)
            + subgraphs[subgraph].mutations.len(),
{
    let next = subgraphs.take(subgraph + 1);
    assert(next.drop_last() == subgraphs.take(subgraph));
    assert(next.last() == subgraphs[subgraph]);
}

/// The fields of a later subgraph start no earlier than those of an
/// earlier one.
pub proof fn lemma_offsets_ordered(subgraphs: Seq<SubgraphModel>, earlier: int, later: int)
    requires
        0 <= earlier <= later <= subgraphs.len(),
    ensures
        query_offset(subgraphs, earlier) <= query_offset(subgraphs, later),
        mutation_offset(subgraphs, earlier) <= mutation_offset(subgraphs, later),
    decreases later - earlier,
{
    if earlier < later {
        lemma_offsets_ordered(subgraphs, earlier, later - 1);
        lemma_offset_step(subgraphs, later - 1);
    }
}

/// The subgraph and the place in it from which a merged query field
/// comes.
proof fn lemma_query_source(subgraphs: Seq<SubgraphModel>, index: int, bound: int) -> (r: (
    int,
    int,
))
    requires
        0 <= bound <= subgraphs.len(),
        0 <= index < query_offset(subgraphs, bound),
    ensures
        0 <= r.0 < bound,
        0 <= r.1 < subgraphs[r.0].queries.len(),
        query_offset(subgraphs, r.0) + r.1 == index,
    decreases bound,
{
    if bound == 0 {
        assert(subgraphs.take(0).len() == 0);
        (0, 0)
    } else {
        lemma_offset_step(subgraphs, bound - 1);
        if index >= query_offset(subgraphs, bound - 1) {
            (bound - 1, index - query_offset(subgraphs, bound - 1))
        } else {
            lemma_query_source(subgraphs, index, bound - 1)
        }
    }
}

/// The subgraph and the place in it from which a merged mutation field
/// comes.
proof fn lemma_mutation_source(subgraphs: Seq<SubgraphModel>, index: int, bound: int) -> (r: (
    int,
    int,
))
    requires
        0 <= bound <= subgraphs.len(),
        0 <= index < mutation_offset(subgraphs, bound),
    ensures
        0 <= r.0 < bound,
        0 <= r.1 < subgraphs[r.0].mutations.len(),
        mutation_offset(subgraphs, r.0) + r.1 == index,
    decreases bound,
{
    if bound == 0 {
        assert(subgraphs.take(0).len() == 0);
        (0, 0)
    } else {
        lemma_offset_step(subgraphs, bound - 1);
        if index >= mutation_offset(subgraphs, bound - 1) {
            (bound - 1, index - mutation_offset(subgraphs, bound - 1))
        } else {
            lemma_mutation_source(subgraphs, index, bound - 1)
        }
    }
}

/// Whether a subgraph declares a field at a place: among its mutation
/// fields where `mutation` is set, among its query fields where not.
pub open spec fn declares(
    subgraphs: Seq<SubgraphModel>,
    mutation: bool,
    subgraph: int,
    field: int,
) -> bool {
    &&& 0 <= subgraph < subgraphs.len()
    &&& 0 <= field < (if mutation {
        subgraphs[subgraph].mutations.len()
    } else {
        subgraphs[subgraph].queries.len()
    })
}

/// The field that a subgraph declares at a place.
pub open spec fn declaration(
    subgraphs: Seq<SubgraphModel>,
    mutation: bool,
    subgraph: int,
    field: int,
) -> FieldModel {
    if mutation {
        subgraphs[subgraph].mutations[field]
    } else {
        subgraphs[subgraph].queries[field]
    }
}

/// Where a declared field stands among all declared fields.
pub open spec fn position(
    subgraphs: Seq<SubgraphModel>,
    mutation: bool,
    subgraph: int,
    field: int,
) -> int {
    if mutation {
        all_queries(subgraphs).len() + mutation_offset(subgraphs, subgraph) + field
    } else {
        query_offset(subgraphs, subgraph) + field
    }
}

/// A declared field stands at its position.
pub proof fn lemma_position(
    subgraphs: Seq<SubgraphModel>,
    mutation: bool,
    subgraph: int,
    field: int,
)
    requires
        declares(subgraphs, mutation, subgraph, field),
    ensures
        0 <= position(subgraphs, mutation, subgraph, field) < declared(subgraphs).len(),
        declared(subgraphs)[position(subgraphs, mutation, subgraph, field)] == declaration(
            subgraphs,
            mutation,
            subgraph,
            field,
        ),
        !mutation ==> position(subgraphs, mutation, subgraph, field) < all_queries(
            subgraphs,
        ).len(),
{
    if mutation {
        lemma_mutation_merged(subgraphs, subgraph, field);
    } else {
        lemma_query_merged(subgraphs, subgraph, field);
    }
}

/// Two declarations stand at two positions.
pub proof fn lemma_position_injective(
    subgraphs: Seq<SubgraphModel>,
    first: (bool, int, int),
    second: (bool, int, int),
)
    requires
        declares(subgraphs, first.0, first.1, first.2),
        declares(subgraphs, second.0, second.1, second.2),
        first != second,
    ensures
        position(subgraphs, first.0, first.1, first.2) != position(
            subgraphs,
            second.0,
            second.1,
            second.2,
        ),
{
    lemma_position(subgraphs, first.0, first.1, first.2);
    lemma_position(subgraphs, second.0, second.1, second.2);
    if first.0 == second.0 {
        if first.1 < second.1 {
            lemma_offset_step(subgraphs, first.1);
            lemma_offsets_ordered(subgraphs, first.1 + 1, second.1);
        } else if second.1 < first.1 {
            lemma_offset_step(subgraphs, second.1);
            lemma_offsets_ordered(subgraphs, second.1 + 1, first.1);
        }
    }
}

/// The declaration from which a declared field comes.
proof fn lemma_source(subgraphs: Seq<SubgraphModel>, index: int) -> (r: (bool, int, int))
    requires
        0 <= index < declared(subgraphs).len(),
    ensures
        declares(subgraphs, r.0, r.1, r.2),
        position(subgraphs, r.0, r.1, r.2) == index,
{
    assert(subgraphs.take(subgraphs.len() as int) == subgraphs);
    let queries = all_queries(subgraphs).len() as int;
    if index < queries {
        let (subgraph, field) = lemma_query_source(subgraphs, index, subgraphs.len() as int);
        (false, subgraph, field)
    } else {
        let (subgraph, field) = lemma_mutation_source(
            subgraphs,
            index - queries,
            subgraphs.len() as int,
        );
        (true, subgraph, field)
    }
}

/// Two declarations of one name cannot be composed, wherever they stand:
/// in two subgraphs or in one, among the queries or among the mutations.
pub proof fn lemma_same_name_refused(
    subgraphs: Seq<SubgraphModel>,
    first: (bool, int, int),
    second: (bool, int, int),
)
    requires
        declares(subgraphs, first.0, first.1, first.2),
        declares(subgraphs, second.0, second.1, second.2),
        first != second,
        declaration(subgraphs, first.0, first.1, first.2).name == declaration(
            subgraphs,
            second.0,
            second.1,
            second.2,
        ).name,
    ensures
        !distinct_names(declared(subgraphs)),
{
    lemma_position(subgraphs, first.0, first.1, first.2);
    lemma_position(subgraphs, second.0, second.1, second.2);
    lemma_position_injective(subgraphs, first, second);
    let all = declared(subgraphs);
    let a = position(subgraphs, first.0, first.1, first.2);
    let b = position(subgraphs, second.0, second.1, second.2);
    if a < b {
        assert(all[a].name == all[b].name);
        assert(repeats(all, b));
    } else {
        assert(all[b].name == all[a].name);
        assert(repeats(all, a));
    }
}

/// Where subgraphs cannot be composed, two declarations have one name.
proof fn lemma_repeat_sources(subgraphs: Seq<SubgraphModel>) -> (r: (
    (bool, int, int),
    (bool, int, int),
))
    requires
        !distinct_names(declared(subgraphs)),
    ensures
        declares(subgraphs, r.0.0, r.0.1, r.0.2),
        declares(subgraphs, r.1.0, r.1.1, r.1.2),
        r.0 != r.1,
        declaration(subgraphs, r.0.0, r.0.1, r.0.2).name == declaration(
            subgraphs,
            r.1.0,
            r.1.1,
            r.1.2,
        ).name,
{
    let all = declared(subgraphs);
    let later = choose|index: int| 0 <= index < all.len() && #[trigger] repeats(all, index);
    let earlier = choose|earlier: int|
        0 <= earlier < later && #[trigger] all[earlier].name == all[later].name;
    let first = lemma_source(subgraphs, earlier);
    let second = lemma_source(subgraphs, later);
    lemma_position(subgraphs, first.0, first.1, first.2);
    lemma_position(subgraphs, second.0, second.1, second.2);
    (first, second)
}

/// Whether `second` holds the subgraphs of `first` in another order:
/// `place` says for each place of `second` where its subgraph stands in
/// `first`, and `back` says the reverse.
pub open spec fn rearranged(
    first: Seq<SubgraphModel>,
    second: Seq<SubgraphModel>,
    place: Seq<int>,
    back: Seq<int>,
) -> bool {
    &&& second.len() == first.len()
    &&& place.len() == first.len()
    &&& back.len() == first.len()
    &&& forall|k: int|
        0 <= k < first.len() ==> 0 <= #[trigger] place[k] < first.len() && second[k]
            == first[place[k]] && back[place[k]] == k
    &&& forall|k: int|
        0 <= k < first.len() ==> 0 <= #[trigger] back[k] < first.len() && place[back[k]] == k
}

/// Subgraphs that cannot be composed in one order cannot be composed in
/// another.
proof fn lemma_rearranged_refused(
    first: Seq<SubgraphModel>,
    second: Seq<SubgraphModel>,
    place: Seq<int>,
    back: Seq<int>,
)
    requires
        rearranged(first, second, place, back),
        !distinct_names(declared(second)),
    ensures
        !distinct_names(declared(first)),
{
    let (a, b) = lemma_repeat_sources(second);
    assert(second[a.1] == first[place[a.1]]);
    assert(second[b.1] == first[place[b.1]]);
    assert(back[place[a.1]] == a.1);
    assert(back[place[b.1]] == b.1);
    lemma_same_name_refused(first, (a.0, place[a.1], a.2), (b.0, place[b.1], b.2));
}

/// The place of a field with the name that a lookup found.
proof fn lemma_named_index(fields: Seq<FieldModel>, name: Seq<char>) -> (index: int)
    requires
        field_named(fields, name) is Some,
    ensures
        0 <= index < fields.len(),
        fields[index].name == name,
        field_named(fields, name) == Some(fields[index].resolver),
    decreases fields.len(),
{
    if fields[0].name == name {
        0
    } else {
        lemma_named_index(fields.drop_first(), name) + 1
    }
}

/// Read as lists of fields in another order, subgraphs answer alike: a
/// name that leads to a resolver in one order leads to it in the other.
proof fn lemma_rearranged_answers(
    first: Seq<SubgraphModel>,
    second: Seq<SubgraphModel>,
    place: Seq<int>,
    back: Seq<int>,
    name: Seq<char>,
)
    requires
        rearranged(first, second, place, back),
        distinct_names(declared(first)),
        distinct_names(declared(second)),
    ensures
        field_named(all_queries(first), name) is Some ==> field_named(all_queries(second), name)
            == field_named(all_queries(first), name),
        field_named(all_mutations(first), name) is Some ==> field_named(
            all_mutations(second),
            name,
        ) == field_named(all_mutations(first), name),
{
    assert(first.take(first.len() as int) == first);
    if field_named(all_queries(first), name) is Some {
        let index = lemma_named_index(all_queries(first), name);
        let (subgraph, field) = lemma_query_source(first, index, first.len() as int);
        lemma_query_merged(first, subgraph, field);
        assert(second[back[subgraph]] == first[place[back[subgraph]]]);
        lemma_merged_query_answers(second, back[subgraph], field);
    }
    if field_named(all_mutations(first), name) is Some {
        let index = lemma_named_index(all_mutations(first), name);
        let (subgraph, field) = lemma_mutation_source(first, index, first.len() as int);
        lemma_mutation_merged(first, subgraph, field);
        assert(second[back[subgraph]] == first[place[back[subgraph]]]);
        lemma_merged_mutation_answers(second, back[subgraph], field);
    }
}

/// The order of the subgraphs does not matter: in another order they can
/// be composed exactly when they can be composed in this one, and the two
/// schemas answer every name of a query field and of a mutation field with
/// the same resolver, or both with none.
pub proof fn lemma_order_does_not_matter(
    first: Seq<SubgraphModel>,
    second: Seq<SubgraphModel>,
    place: Seq<int>,
    back: Seq<int>,
)
    requires
        rearranged(first, second, place, back),
    ensures
        distinct_names(declared(first)) <==> distinct_names(declared(second)),
        distinct_names(declared(first)) ==> forall|name: Seq<char>|
            #![trigger field_named(all_queries(first), name)]
            #![trigger field_named(all_queries(second), name)]
            #![trigger field_named(all_mutations(first), name)]
            #![trigger field_named(all_mutations(second), name)]
            field_named(all_queries(first), name) == field_named(all_queries(second), name)
                && field_named(all_mutations(first), name) == field_named(
                all_mutations(second),
                name,
            ),
{
    assert(rearranged(second, first, back, place));
    if !distinct_names(declared(second)) {
        lemma_rearranged_refused(first, second, place, back);
    }
    if !distinct_names(declared(first)) {
        lemma_rearranged_refused(second, first, back, place);
    }
    if distinct_names(declared(first)) {
        assert forall|name: Seq<char>|
            field_named(all_queries(first), name) == field_named(all_queries(second), name)
                && field_named(all_mutations(first), name) == field_named(
                all_mutations(second),
                name,
            ) by {
            lemma_rearranged_answers(first, second, place, back, name);
            lemma_rearranged_answers(second, first, back, place, name);
        }
    }
}

/// The subgraphs of the gateway: that of users, then that of products.
pub open spec fn gateway_subgraphs() -> Seq<SubgraphModel> {
    seq![
        SubgraphModel { queries: user_query_fields(), mutations: user_mutation_fields() },
        SubgraphModel { queries: product_query_fields(), mutations: product_mutation_fields() },
    ]
}

/// The fields of the gateway's query root.
pub open spec fn gateway_queries() -> Seq<FieldModel> {
    user_query_fields() + product_query_fields()
}

/// The fields of the gateway's mutation root.
pub open spec fn gateway_mutations() -> Seq<FieldModel> {
    user_mutation_fields() + product_mutation_fields()
}

/// The subgraphs of the gateway merge into its two roots, and no two of
/// their fields have one name.
pub proof fn lemma_gateway_composes()
    ensures
        all_queries(gateway_subgraphs()) == gateway_queries(),
        all_mutations(gateway_subgraphs()) == gateway_mutations(),
        distinct_names(declared(gateway_subgraphs())),
{
    let both = gateway_subgraphs();
    let first = both.drop_last();
    let none = first.drop_last();
    assert(none.len() == 0);
    assert(all_queries(none) == Seq::<FieldModel>::empty());
    assert(all_mutations(none) == Seq::<FieldModel>::empty());
    assert(first.last().queries == user_query_fields());
    assert(all_queries(first) == all_queries(none) + first.last().queries);
    assert(all_mutations(first) == all_mutations(none) + first.last().mutations);
    assert(all_queries(first) == user_query_fields());
    assert(all_mutations(first) == user_mutation_fields());
    assert(all_queries(both) == gateway_queries());
    assert(all_mutations(both) == gateway_mutations());
    let all = declared(both);
    reveal_strlit("user");
    reveal_strlit("getAllUsers");
    reveal_strlit("product");
    reveal_strlit("getAllProducts");
    reveal_strlit("addUser");
    reveal_strlit("createUser");
    reveal_strlit("updateUser");
    reveal_strlit("deleteUser");
    reveal_strlit("addProduct");
    reveal_strlit("createProduct");
    reveal_strlit("updateProduct");
    reveal_strlit("deleteProduct");
    assert(all.len() == 12);
    assert(all[0].name == "user"@);
    assert(all[1].name == "getAllUsers"@);
    assert(all[2].name == "product"@);
    assert(all[3].name == "getAllProducts"@);
    assert(all[4].name == "addUser"@);
    assert(all[5].name == "createUser"@);
    assert(all[6].name == "updateUser"@);
    assert(all[7].name == "deleteUser"@);
    assert(all[8].name == "addProduct"@);
    assert(all[9].name == "createProduct"@);
    assert(all[10].name == "updateProduct"@);
    assert(all[11].name == "deleteProduct"@);
    assert forall|i: int, j: int| 0 <= i < j < 12 implies all[i].name != all[j].name by {
        assert(all[i].name.len() != all[j].name.len() || all[i].name[0] != all[j].name[0]);
    }
}

/// Composes the schema of the gateway, with the subgraph of users and the
/// subgraph of products, and binds the context to it.
pub fn create_schema<C>(context: C) -> (r: AppSchema<C>)
    ensures
        r.query_fields() == gateway_queries(),
        r.mutation_fields() == gateway_mutations(),
        r.bound() == context,
{
    let mut subgraphs: Vec<Subgraph> = Vec::new();
    subgraphs.push(users_subgraph());
    subgraphs.push(products_subgraph());
    proof {
        lemma_gateway_composes();
        assert(subgraph_models(subgraphs@) == gateway_subgraphs());
    }
    match compose(&subgraphs, context) {
        Ok(schema) => schema,
        Err(_) => {
            proof {
                let all = declared(gateway_subgraphs());
                let index = choose|index: int| first_repeat(all, index);
                assert(repeats(all, index));
            }
            unreached()
        },
    }
}

} // verus!
