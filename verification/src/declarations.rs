//! What an embedded descriptor set declares: its files, their top-level
//! message types and the fields of these.

use vstd::prelude::*;
use vstd::string::*;

verus! {

/// Label code of a repeated field.
pub const LABEL_REPEATED: i32 = 3;

/// A field of a message type as its descriptor declares it.
#[derive(Debug)]
pub struct FieldDecl {
    pub name: String,
    pub number: i32,
    pub label: i32,
    pub code: i32,
    pub default: Option<String>,
}

/// A top-level message type of a file.
#[derive(Debug)]
pub struct MessageDecl {
    pub name: String,
    pub fields: Vec<FieldDecl>,
}

/// A file of a descriptor set.
#[derive(Debug)]
pub struct FileDecl {
    pub package: String,
    pub messages: Vec<MessageDecl>,
}

/// A field declaration as a mathematical value.
pub struct FieldModel {
    pub name: Seq<char>,
    pub number: i32,
    pub label: i32,
    pub code: i32,
    pub default: Option<Seq<char>>,
}

/// A message declaration as a mathematical value.
pub struct MessageModel {
    pub name: Seq<char>,
    pub fields: Seq<FieldModel>,
}

/// A file declaration as a mathematical value.
pub struct FileModel {
    pub package: Seq<char>,
    pub messages: Seq<MessageModel>,
}

impl View for FieldDecl {
    type V = FieldModel;

    open spec fn view(&self) -> FieldModel {
        FieldModel {
            name: self.name@,
            number: self.number,
            label: self.label,
            code: self.code,
            default: match self.default {
                Some(text) => Some(text@),
                None => None,
            },
        }
    }
}

impl View for MessageDecl {
    type V = MessageModel;

    open spec fn view(&self) -> MessageModel {
        MessageModel { name: self.name@, fields: self.fields@.map_values(|f: FieldDecl| f@) }
    }
}

impl View for FileDecl {
    type V = FileModel;

    open spec fn view(&self) -> FileModel {
        FileModel {
            package: self.package@,
            messages: self.messages@.map_values(|m: MessageDecl| m@),
        }
    }
}

/// The files of a set as mathematical values.
pub open spec fn file_models(files: Seq<FileDecl>) -> Seq<FileModel> {
    files.map_values(|f: FileDecl| f@)
}

/// The files that a descriptor set declares, in the order of the set, or
/// nothing where the blob does not parse as a descriptor set.
pub uninterp spec fn schema_declarations(blob: Seq<u8>) -> Option<Seq<FileModel>>;

/// Parses the blob with `FileDescriptorSet::parse_from_bytes` and copies
/// out, in the order of the set: of every file the package; of every
/// top-level message type the name; of every field of these the name, the
/// number, the label code, the type code and the default text, where one is
/// declared.
#[verifier::external_body]
fn read_declarations(blob: &[u8]) -> (r: Option<Vec<FileDecl>>)
    ensures
        match r {
            Some(files) => schema_declarations(blob@) == Some(file_models(files@)),
            None => schema_declarations(blob@) is None,
        },
{
    let set = <protobuf::descriptor::FileDescriptorSet as protobuf::Message>::parse_from_bytes(blob).ok()?;
    let field = |x: &protobuf::descriptor::FieldDescriptorProto| FieldDecl {
        name: x.name().to_string(),
        number: x.number(),
        label: protobuf::Enum::value(&x.label()),
        code: protobuf::Enum::value(&x.type_()),
        default: x.default_value.clone(),
    };
    Some(set.file.iter().map(|f| FileDecl {
        package: f.package().to_string(),
        messages: f.message_type.iter().map(|m| MessageDecl {
            name: m.name().to_string(),
            fields: m.field.iter().map(field).collect(),
        }).collect(),
    }).collect())
}

/// Reads what a descriptor set declares.
pub fn declarations(blob: &[u8]) -> (r: Option<Vec<FileDecl>>)
    ensures
        match r {
            Some(files) => schema_declarations(blob@) == Some(file_models(files@)),
            None => schema_declarations(blob@) is None,
        },
{
    read_declarations(blob)
}

/// Full name of a top-level message type: the package and the name joined
/// by a dot, or the name alone where the file has no package.
pub open spec fn full_name_of(package: Seq<char>, name: Seq<char>) -> Seq<char> {
    if package.len() == 0 {
        name
    } else {
        package + "."@ + name
    }
}

/// Full name of a top-level message type.
pub fn full_name(package: &str, name: &str) -> (full: String)
    ensures
        full@ == full_name_of(package@, name@),
{
    if package.is_empty() {
        String::from_str(name)
    } else {
        String::from_str(package).concat(".").concat(name)
    }
}

/// The first message type of `messages`, from place `j` on, whose full
/// name in `package` is `wanted`.
pub open spec fn in_messages(
    package: Seq<char>,
    messages: Seq<MessageModel>,
    wanted: Seq<char>,
    j: int,
) -> Option<MessageModel>
    decreases messages.len() - j,
{
    if j < 0 || j >= messages.len() {
        None
    } else if full_name_of(package, messages[j].name) == wanted {
        Some(messages[j])
    } else {
        in_messages(package, messages, wanted, j + 1)
    }
}

/// The first message type of the files from place `i` on whose full name
/// is `wanted`.
pub open spec fn in_files(files: Seq<FileModel>, wanted: Seq<char>, i: int) -> Option<MessageModel>
    decreases files.len() - i,
{
    if i < 0 || i >= files.len() {
        None
    } else {
        match in_messages(files[i].package, files[i].messages, wanted, 0) {
            Some(m) => Some(m),
            None => in_files(files, wanted, i + 1),
        }
    }
}

/// Finds the first top-level message type with the full name `wanted` and
/// takes it out of the files.
pub fn locate(files: Vec<FileDecl>, wanted: &str) -> (r: Option<MessageDecl>)
    ensures
        match r {
            Some(m) => in_files(file_models(files@), wanted@, 0) == Some(m@),
            None => in_files(file_models(files@), wanted@, 0) is None,
        },
{
    let ghost all = file_models(files@);
    let mut rest = files;
    let key = String::from_str(wanted);
    let mut i: usize = 0;
    while i < rest.len()
        invariant
            i <= rest@.len(),
            key@ == wanted@,
            all == file_models(files@),
            all == file_models(rest@),
            in_files(all, wanted@, 0) == in_files(all, wanted@, i as int),
        decreases rest@.len() - i,
    {
        let ghost file = all[i as int];
        proof {
            assert(file == rest@[i as int]@);
        }
        let mut j: usize = 0;
        while j < rest[i].messages.len()
            invariant
                i < rest@.len(),
                j <= rest@[i as int].messages@.len(),
                key@ == wanted@,
                all == file_models(files@),
                all == file_models(rest@),
                file == rest@[i as int]@,
                in_files(all, wanted@, 0) == in_files(all, wanted@, i as int),
                in_messages(file.package, file.messages, wanted@, 0) == in_messages(
                    file.package,
                    file.messages,
                    wanted@,
                    j as int,
                ),
            decreases rest@[i as int].messages@.len() - j,
        {
            let name = full_name(rest[i].package.as_str(), rest[i].messages[j].name.as_str());
            proof {
                assert(file.messages[j as int] == rest@[i as int].messages@[j as int]@);
            }
            if name == key {
                proof {
                    assert(in_messages(file.package, file.messages, wanted@, j as int) == Some(
                        file.messages[j as int],
                    ));
                    assert(in_files(all, wanted@, i as int) == Some(file.messages[j as int]));
                }
                let ghost target = rest@[i as int].messages@[j as int];
                let mut taken = rest.swap_remove(i);
                let message = taken.messages.swap_remove(j);
                proof {
                    assert(message == target);
                    assert(in_files(file_models(files@), wanted@, 0) == Some(message@));
                }
                return Some(message);
            }
            j = j + 1;
        }
        i = i + 1;
    }
    None
}

} // verus!
