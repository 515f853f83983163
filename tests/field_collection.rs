use crocofix::error::Error;
use crocofix::field::Field;
use crocofix::field_collection::{FieldCollection, RemoveOperation, SetOperation};
use crocofix::fix_5_0sp2;
use crocofix::tags;

fn value(tag: u32, name: &str) -> Field {
    let fields = fix_5_0sp2::fields();
    let definition = fields.field(tag as usize);
    Field::from_field_value(&definition.value_with_name(name).unwrap())
}



 
#[test]
fn default_state()
{
    let fields = FieldCollection::default();
    assert!(fields.is_empty());
}

#[test]
fn field_collection_clear()
{
    let mut fields = FieldCollection::default();
    assert!(fields.is_empty());
    assert_eq!(fields.set(&(value(tags::ORD_STATUS, "New")), SetOperation::Append), true);
    assert!(!fields.is_empty());
    fields.clear();
    assert!(fields.is_empty());
}

#[test]
fn overwrite_non_existent_field()
{
    let mut fields = FieldCollection::default();
    assert_eq!(fields.set(&Field::from_str(tags::EX_DESTINATION, "ASX"), SetOperation::ReplaceFirst), false);
    assert!(fields.is_empty());
}

#[test]
fn overwrite_existing_field() -> Result<(), Error>
{
    let mut fields = FieldCollection::default();
    assert_eq!(fields.set(&(value(tags::ORD_STATUS, "New")), SetOperation::Append), true);
    assert_eq!(fields.get(tags::ORD_STATUS)?.value, "0");
    assert_eq!(fields.set(&(value(tags::ORD_STATUS, "PartiallyFilled")), SetOperation::ReplaceFirstOrAppend), true);
    assert_eq!(fields.get(tags::ORD_STATUS)?.value, "1");
    Ok(())
}

#[test]
fn add_non_existent_field()
{
    let mut fields = FieldCollection::default();
    assert_eq!(fields.set(&Field::from_str(tags::EX_DESTINATION, "ASX"), SetOperation::ReplaceFirstOrAppend), true);
    assert_eq!(fields.len(), 1);
    let field = fields.field_at(0);
    assert_eq!(field.tag, tags::EX_DESTINATION);
    assert_eq!(field.value, "ASX");
}

#[test]
fn add_duplicate_field()
{
    let mut fields = FieldCollection::default();
    assert_eq!(fields.set(&Field::from_str(tags::EX_DESTINATION, "ASX"), SetOperation::ReplaceFirstOrAppend), true);
    assert_eq!(fields.set(&Field::from_str(tags::EX_DESTINATION, "ASX"), SetOperation::Append), true);
    assert_eq!(fields.len(), 2);
    let field = fields.field_at(0);
    assert_eq!(field.tag, tags::EX_DESTINATION);
    assert_eq!(field.value, "ASX");
    let field = fields.field_at(1);
    assert_eq!(field.tag, tags::EX_DESTINATION);
    assert_eq!(field.value, "ASX");
}

#[test]
fn remove_first_non_existent_field_from_empty_collection()
{
    let mut fields = FieldCollection::default();
    assert_eq!(fields.remove(tags::EX_DESTINATION, RemoveOperation::RemoveFirst), false);
}

#[test]
fn remove_all_non_existent_field_from_empty_collection()
{
    let mut fields = FieldCollection::default();
    assert_eq!(fields.remove(tags::EX_DESTINATION, RemoveOperation::RemoveAll), false);
}

#[test]
fn remove_first_existent_field_from_populated_collection()
{
    let mut fields = FieldCollection::default();
    assert_eq!(fields.set(&Field::from_str(tags::EX_DESTINATION, "ASX"), SetOperation::Append), true);
    assert_eq!(fields.set(&Field::from_str(tags::EX_DESTINATION, "ASX"), SetOperation::Append), true);
    assert_eq!(fields.remove(tags::EX_DESTINATION, RemoveOperation::RemoveFirst), true);
    assert_eq!(fields.len(), 1);
}

#[test]
fn remove_all_existent_field_from_populated_collection()
{
    let mut fields = FieldCollection::default();
    assert_eq!(fields.set(&Field::from_str(tags::EX_DESTINATION, "ASX"), SetOperation::Append), true);
    assert_eq!(fields.set(&Field::from_str(tags::EX_DESTINATION, "ASX"), SetOperation::Append), true);
    assert_eq!(fields.set(&Field::from_str(tags::EX_DESTINATION, "ASX"), SetOperation::Append), true);
    assert_eq!(fields.remove(tags::EX_DESTINATION, RemoveOperation::RemoveAll), true);
    assert!(fields.is_empty());
}

#[test]
fn get_non_existent_field_from_empty_collection()
{
    let fields = FieldCollection::default();
    assert_eq!(fields.get(tags::TIME_IN_FORCE), Err(Error::MessageDoesNotContainFieldWithTag(tags::TIME_IN_FORCE)));
}

#[test]
fn get_non_existent_field_from_populated_collection()
{
    let mut fields = FieldCollection::default();
    assert_eq!(fields.set(&Field::from_str(tags::EX_DESTINATION, "ASX"), SetOperation::Append), true);
    assert_eq!(fields.get(tags::TIME_IN_FORCE), Err(Error::MessageDoesNotContainFieldWithTag(tags::TIME_IN_FORCE)));
}

#[test]
fn get_existent_field() -> Result<(), Error>
{
    let mut fields = FieldCollection::default();
    assert_eq!(fields.set(&Field::from_str(tags::EX_DESTINATION, "ASX"), SetOperation::Append), true);
    assert_eq!(fields.get(tags::EX_DESTINATION)?.value, "ASX");
    Ok(())
}

#[test]
fn try_get_field_from_empty_collection()
{
    let fields = FieldCollection::default();
    assert_eq!(fields.try_get(tags::TIME_IN_FORCE), None);
}

#[test]
fn try_get_non_existent_field_from_populated_collection()
{
    let mut fields = FieldCollection::default();
    assert_eq!(fields.set(&Field::from_str(tags::EX_DESTINATION, "ASX"), SetOperation::Append), true);
    assert_eq!(fields.try_get(tags::TIME_IN_FORCE), None);
}

#[test]
fn try_get_existent_field()
{
    let mut fields = FieldCollection::default();
    assert_eq!(fields.set(&Field::from_str(tags::EX_DESTINATION, "ASX"), SetOperation::Append), true);
    match fields.try_get(tags::EX_DESTINATION) {
        None => panic!("field collection does not contain expected field {}", tags::EX_DESTINATION),
        Some(field) => assert_eq!(field.value, "ASX")
    }
}

#[test]
fn try_get_existent_field_returns_first_instance_of_multiply_defined_field()
{
    let mut fields = FieldCollection::default();
    assert_eq!(fields.set(&Field::from_str(tags::EX_DESTINATION, "ASX"), SetOperation::Append), true);
    assert_eq!(fields.set(&Field::from_str(tags::EX_DESTINATION, "TSX"), SetOperation::Append), true);
    match fields.try_get(tags::EX_DESTINATION) {
        None => panic!("field collection does not contain expected field {}", tags::EX_DESTINATION),
        Some(field) => assert_eq!(field.value, "ASX")
    }
}

