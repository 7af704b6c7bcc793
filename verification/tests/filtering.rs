use fieldfilter::attrs::{Attribute, Meta, MetaList, NestedMeta};
use fieldfilter::generate::{derive_field_filterable_impl, Data, Declaration, FieldDecl, Fields};
use fieldfilter::project::{
    accepts, field_filter, FieldSelection, Projected, ProjectedField, SourceField,
};
use fieldfilter::shape::{GenericArgument, PathArguments, PathExpr, PathSegment, TypeExpr};
use fieldfilter::FieldFilterable;
use std::collections::HashSet;

#[derive(Debug, PartialEq)]
enum Value {
    Number(u32),
    Text(String),
    MaybeText(Option<String>),
}

fn named(name: &str) -> PathExpr {
    PathExpr {
        leading_colon: false,
        segments: vec![PathSegment { ident: name.to_string(), arguments: PathArguments::Bare }],
    }
}

fn plain(name: &str) -> TypeExpr {
    TypeExpr::Path(named(name))
}

fn option_of(inner: TypeExpr) -> TypeExpr {
    TypeExpr::Path(PathExpr {
        leading_colon: false,
        segments: vec![PathSegment {
            ident: "Option".to_string(),
            arguments: PathArguments::AngleBracketed(vec![GenericArgument::Type(inner)]),
        }],
    })
}

fn filterable_on(source: &str) -> Attribute {
    Attribute::Parsed(Meta::List(MetaList {
        path: named("field_filterable_on"),
        nested: vec![NestedMeta::Meta(Meta::Path(named(source)))],
    }))
}

fn derives_debug() -> Attribute {
    Attribute::Parsed(Meta::List(MetaList {
        path: named("derive"),
        nested: vec![
            NestedMeta::Meta(Meta::Path(named("Debug"))),
            NestedMeta::Meta(Meta::Path(named("PartialEq"))),
        ],
    }))
}

fn field(name: &str, ty: TypeExpr) -> FieldDecl {
    FieldDecl { ident: name.to_string(), ty }
}

fn source_field(name: &str, value: Value) -> SourceField<Value> {
    SourceField { name: name.to_string(), value }
}

fn projected(name: &str, value: Projected<Value>) -> ProjectedField<Value> {
    ProjectedField { name: name.to_string(), value }
}

fn selection_of(fields: HashSet<String>) -> FieldSelection {
    FieldSelection::from_names(fields.into_iter().collect())
}

fn number(field: ProjectedField<Value>, name: &str) -> u32 {
    assert_eq!(field.name, name);
    match field.value {
        Projected::Copied(Value::Number(n)) => n,
        other => panic!("field {} holds {:?}", name, other),
    }
}

fn guarded_text(field: ProjectedField<Value>, name: &str) -> Option<String> {
    assert_eq!(field.name, name);
    match field.value {
        Projected::Guarded(Some(Value::Text(s))) => Some(s),
        Projected::Guarded(None) => None,
        other => panic!("field {} holds {:?}", name, other),
    }
}

fn guarded_maybe_text(field: ProjectedField<Value>, name: &str) -> Option<Option<String>> {
    assert_eq!(field.name, name);
    match field.value {
        Projected::Guarded(Some(Value::MaybeText(s))) => Some(s),
        Projected::Guarded(None) => None,
        other => panic!("field {} holds {:?}", name, other),
    }
}

fn run(
    decl: &Declaration,
    record: Vec<SourceField<Value>>,
    fields: HashSet<String>,
) -> Vec<ProjectedField<Value>> {
    let plan = derive_field_filterable_impl(decl).unwrap_or_else(|e| panic!("{:?}", e));
    assert!(accepts(&plan, &record));
    field_filter(&plan, record, &selection_of(fields))
}

struct User {
    id: u32,
    name: String,
    email: String,
}

#[derive(Debug, PartialEq)]
struct FilteredUser {
    id: u32,
    name: Option<String>,
    email: Option<String>,
}

fn filtered_user_decl() -> Declaration {
    Declaration {
        ident: "FilteredUser".to_string(),
        attrs: vec![derives_debug(), filterable_on("User")],
        data: Data::Struct(Fields::Named(vec![
            field("id", plain("u32")),
            field("name", option_of(plain("String"))),
            field("email", option_of(plain("String"))),
        ])),
    }
}

fn user_record(o: User) -> Vec<SourceField<Value>> {
    vec![
        source_field("id", Value::Number(o.id)),
        source_field("name", Value::Text(o.name)),
        source_field("email", Value::Text(o.email)),
    ]
}

impl FieldFilterable<User> for FilteredUser {
    fn field_filter(o: User, fields: HashSet<String>) -> Self {
        let mut out = run(&filtered_user_decl(), user_record(o), fields).into_iter();
        let id = number(out.next().unwrap(), "id");
        let name = guarded_text(out.next().unwrap(), "name");
        let email = guarded_text(out.next().unwrap(), "email");
        assert!(out.next().is_none());
        FilteredUser { id, name, email }
    }
}

struct UserWithStatus {
    id: u32,
    name: String,
    email: String,
    status: Option<String>,
}

#[derive(Debug, PartialEq)]
struct FilteredUserWithStatus {
    id: u32,
    name: Option<String>,
    email: Option<String>,
    status: Option<Option<String>>,
}

fn filtered_user_with_status_decl() -> Declaration {
    Declaration {
        ident: "FilteredUser".to_string(),
        attrs: vec![derives_debug(), filterable_on("User")],
        data: Data::Struct(Fields::Named(vec![
            field("id", plain("u32")),
            field("name", option_of(plain("String"))),
            field("email", option_of(plain("String"))),
            field("status", option_of(option_of(plain("String")))),
        ])),
    }
}

impl FieldFilterable<UserWithStatus> for FilteredUserWithStatus {
    fn field_filter(o: UserWithStatus, fields: HashSet<String>) -> Self {
        let record = vec![
            source_field("id", Value::Number(o.id)),
            source_field("name", Value::Text(o.name)),
            source_field("email", Value::Text(o.email)),
            source_field("status", Value::MaybeText(o.status)),
        ];
        let mut out = run(&filtered_user_with_status_decl(), record, fields).into_iter();
        let id = number(out.next().unwrap(), "id");
        let name = guarded_text(out.next().unwrap(), "name");
        let email = guarded_text(out.next().unwrap(), "email");
        let status = guarded_maybe_text(out.next().unwrap(), "status");
        assert!(out.next().is_none());
        FilteredUserWithStatus { id, name, email, status }
    }
}

fn allen() -> User {
    User { id: 1, name: "Allen".to_string(), email: "allen@example.org".to_string() }
}

fn allen_with_status() -> UserWithStatus {
    UserWithStatus {
        id: 1,
        name: "Allen".to_string(),
        email: "allen@example.org".to_string(),
        status: None,
    }
}

#[test]
fn test_basic() {
    let user = User {
        id: 1,
        name: "Allen".to_string(),
        email: "allen@example.org".to_string(),
    };

    let fields = HashSet::from(["email".to_owned()]);

    let filtered_user = FieldFilterable::field_filter(user, fields);

    assert_eq!(
        FilteredUser {
            id: 1,
            name: None,
            email: Some("allen@example.org".to_string())
        },
        filtered_user
    );
}

#[test]
fn test_optional_base() {
    let user = UserWithStatus {
        id: 1,
        name: "Allen".to_string(),
        email: "allen@example.org".to_string(),
        status: None,
    };

    let fields = HashSet::from(["email".to_owned()]);

    let filtered_user = FieldFilterable::field_filter(user, fields);

    assert_eq!(
        FilteredUserWithStatus {
            id: 1,
            name: None,
            email: Some("allen@example.org".to_string()),
            status: None,
        },
        filtered_user
    );
}

#[test]
fn empty_selection_empties_every_guarded_field() {
    let filtered: FilteredUser = FieldFilterable::field_filter(allen(), HashSet::new());
    assert_eq!(FilteredUser { id: 1, name: None, email: None }, filtered);
}

#[test]
fn full_selection_keeps_every_guarded_field() {
    let fields = HashSet::from(["name".to_owned(), "email".to_owned()]);
    let filtered: FilteredUser = FieldFilterable::field_filter(allen(), fields);
    assert_eq!(
        FilteredUser {
            id: 1,
            name: Some("Allen".to_string()),
            email: Some("allen@example.org".to_string()),
        },
        filtered
    );
}

#[test]
fn selected_empty_source_value_is_present_and_empty() {
    let fields = HashSet::from(["status".to_owned()]);
    let filtered: FilteredUserWithStatus = FieldFilterable::field_filter(allen_with_status(), fields);
    assert_eq!(
        FilteredUserWithStatus { id: 1, name: None, email: None, status: Some(None) },
        filtered
    );
}

#[test]
fn unselected_empty_source_value_is_absent() {
    let fields = HashSet::from(["name".to_owned()]);
    let filtered: FilteredUserWithStatus = FieldFilterable::field_filter(allen_with_status(), fields);
    assert_eq!(
        FilteredUserWithStatus {
            id: 1,
            name: Some("Allen".to_string()),
            email: None,
            status: None,
        },
        filtered
    );
}

#[test]
fn plain_field_is_copied_whether_selected_or_not() {
    let with = HashSet::from(["id".to_owned()]);
    let a: FilteredUser = FieldFilterable::field_filter(allen(), with);
    let b: FilteredUser = FieldFilterable::field_filter(allen(), HashSet::new());
    assert_eq!(a.id, 1);
    assert_eq!(b.id, 1);
    assert_eq!(a, b);
}

#[test]
fn unknown_names_in_the_selection_change_nothing() {
    let fields = HashSet::from(["email".to_owned(), "password".to_owned(), "Email".to_owned()]);
    let filtered: FilteredUser = FieldFilterable::field_filter(allen(), fields);
    assert_eq!(
        FilteredUser { id: 1, name: None, email: Some("allen@example.org".to_string()) },
        filtered
    );
}

#[test]
fn output_follows_declared_order_and_names() {
    let out = run(&filtered_user_decl(), user_record(allen()), HashSet::from(["name".to_owned()]));
    assert_eq!(
        out,
        vec![
            projected("id", Projected::Copied(Value::Number(1))),
            projected("name", Projected::Guarded(Some(Value::Text("Allen".to_string())))),
            projected("email", Projected::Guarded(None)),
        ]
    );
}

#[test]
fn field_order_does_not_change_field_content() {
    let reordered = Declaration {
        ident: "FilteredUser".to_string(),
        attrs: vec![filterable_on("User")],
        data: Data::Struct(Fields::Named(vec![
            field("email", option_of(plain("String"))),
            field("id", plain("u32")),
            field("name", option_of(plain("String"))),
        ])),
    };
    let fields = HashSet::from(["email".to_owned()]);
    let a = run(&filtered_user_decl(), user_record(allen()), fields.clone());
    let b = run(&reordered, user_record(allen()), fields);
    assert_eq!(a.len(), 3);
    assert_eq!(b.len(), 3);
    assert_eq!(b[0].name, "email");
    for fa in &a {
        let fb = b.iter().find(|f| f.name == fa.name).unwrap();
        assert_eq!(fa.value, fb.value);
    }
}

#[test]
fn source_field_order_and_extra_fields_do_not_matter() {
    let record = vec![
        source_field("email", Value::Text("allen@example.org".to_string())),
        source_field("password", Value::Text("hunter2".to_string())),
        source_field("name", Value::Text("Allen".to_string())),
        source_field("id", Value::Number(1)),
    ];
    let out = run(&filtered_user_decl(), record, HashSet::from(["email".to_owned()]));
    assert_eq!(
        out,
        vec![
            projected("id", Projected::Copied(Value::Number(1))),
            projected("name", Projected::Guarded(None)),
            projected("email", Projected::Guarded(Some(Value::Text("allen@example.org".to_string())))),
        ]
    );
}

#[test]
fn filtering_the_reduced_record_again_wraps_again() {
    let decl = filtered_user_decl();
    let plan = derive_field_filterable_impl(&decl).unwrap_or_else(|e| panic!("{:?}", e));
    let mut selection = FieldSelection::new();
    selection.insert("email".to_string());
    let record = user_record(allen());
    assert!(accepts(&plan, &record));
    let once = field_filter(&plan, record, &selection);
    let again: Vec<SourceField<Projected<Value>>> =
        once.into_iter().map(|f| SourceField { name: f.name, value: f.value }).collect();
    assert!(accepts(&plan, &again));
    let twice = field_filter(&plan, again, &selection);
    assert_eq!(
        twice[2].value,
        Projected::Guarded(Some(Projected::Guarded(Some(Value::Text(
            "allen@example.org".to_string()
        )))))
    );
    assert_eq!(twice[0].value, Projected::Copied(Projected::Copied(Value::Number(1))));
    assert_eq!(twice[1].value, Projected::Guarded(None));
}

#[test]
fn record_without_a_declared_field_is_not_accepted() {
    let decl = filtered_user_decl();
    let plan = derive_field_filterable_impl(&decl).unwrap_or_else(|e| panic!("{:?}", e));
    let record = vec![
        source_field("id", Value::Number(1)),
        source_field("name", Value::Text("Allen".to_string())),
    ];
    assert!(!accepts(&plan, &record));
    assert!(accepts(&plan, &user_record(allen())));
}

#[test]
fn declaration_with_a_repeated_field_accepts_no_record() {
    let decl = Declaration {
        ident: "Twice".to_string(),
        attrs: vec![filterable_on("User")],
        data: Data::Struct(Fields::Named(vec![
            field("id", plain("u32")),
            field("id", plain("u32")),
        ])),
    };
    let plan = derive_field_filterable_impl(&decl).unwrap_or_else(|e| panic!("{:?}", e));
    let record = vec![source_field("id", Value::Number(1)), source_field("id", Value::Number(2))];
    assert!(!accepts(&plan, &record));
}

#[test]
fn first_source_field_of_a_name_is_the_one_read() {
    let decl = Declaration {
        ident: "OnlyId".to_string(),
        attrs: vec![filterable_on("User")],
        data: Data::Struct(Fields::Named(vec![field("id", plain("u32"))])),
    };
    let record = vec![source_field("id", Value::Number(1)), source_field("id", Value::Number(2))];
    let out = run(&decl, record, HashSet::new());
    assert_eq!(out, vec![projected("id", Projected::Copied(Value::Number(1)))]);
}

#[test]
fn selection_holds_what_was_inserted() {
    let mut selection = FieldSelection::new();
    assert!(!selection.contains("email"));
    selection.insert("email".to_string());
    selection.insert("email".to_string());
    assert!(selection.contains("email"));
    assert!(!selection.contains("name"));
    assert!(!selection.contains("emai"));
    let listed = FieldSelection::from_names(vec!["a".to_string(), "b".to_string(), "a".to_string()]);
    assert!(listed.contains("a"));
    assert!(listed.contains("b"));
    assert!(!listed.contains("c"));
    assert!(!FieldSelection::from_names(Vec::new()).contains(""));
}
