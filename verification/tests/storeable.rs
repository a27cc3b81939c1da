use easy_storage::{Error, Format, ReadRequest, Record, Storeable, WriteRequest};
use serde::de::{Error as DeError, IgnoredAny, MapAccess, Visitor};
use serde::ser::SerializeStruct;
use serde::{Deserialize, Deserializer, Serialize, Serializer};
use std::collections::BTreeMap;
use std::fmt;
use std::io::ErrorKind;

#[derive(Debug, PartialEq, Eq)]
struct User {
    name: String,
    email: String,
}

impl Serialize for User {
    fn serialize<S: Serializer>(&self, serializer: S) -> Result<S::Ok, S::Error> {
        let mut state = serializer.serialize_struct("User", 2)?;
        state.serialize_field("name", &self.name)?;
        state.serialize_field("email", &self.email)?;
        state.end()
    }
}

struct UserVisitor;

impl<'de> Visitor<'de> for UserVisitor {
    type Value = User;

    fn expecting(&self, formatter: &mut fmt::Formatter) -> fmt::Result {
        formatter.write_str("struct User")
    }

    fn visit_map<A: MapAccess<'de>>(self, mut map: A) -> Result<User, A::Error> {
        let mut name: Option<String> = None;
        let mut email: Option<String> = None;
        while let Some(key) = map.next_key::<String>()? {
            match key.as_str() {
                "name" => {
                    if name.is_some() {
                        return Err(A::Error::duplicate_field("name"));
                    }
                    name = Some(map.next_value()?);
                }
                "email" => {
                    if email.is_some() {
                        return Err(A::Error::duplicate_field("email"));
                    }
                    email = Some(map.next_value()?);
                }
                _ => {
                    map.next_value::<IgnoredAny>()?;
                }
            }
        }
        let name = name.ok_or_else(|| A::Error::missing_field("name"))?;
        let email = email.ok_or_else(|| A::Error::missing_field("email"))?;
        Ok(User { name, email })
    }
}

impl<'de> Deserialize<'de> for User {
    fn deserialize<D: Deserializer<'de>>(deserializer: D) -> Result<Self, D::Error> {
        deserializer.deserialize_struct("User", &["name", "email"], UserVisitor)
    }
}

impl Record for User {
    fn to_json_pretty(&self) -> Result<String, serde_json::Error> {
        serde_json::to_string_pretty(self)
    }

    fn to_toml_pretty(&self) -> Result<String, toml::ser::Error> {
        toml::to_string_pretty(self)
    }

    fn from_json(text: &str) -> Result<Self, serde_json::Error> {
        serde_json::from_str(text)
    }

    fn from_toml(text: &str) -> Result<Self, toml::de::Error> {
        toml::from_str(text)
    }
}

impl Storeable for User {}

/// A record that neither format can encode as a document: a bare map whose
/// keys are not text.
struct Unencodable;

impl Record for Unencodable {
    fn to_json_pretty(&self) -> Result<String, serde_json::Error> {
        let mut keyed: BTreeMap<(u8, u8), u8> = BTreeMap::new();
        keyed.insert((1, 2), 3);
        serde_json::to_string_pretty(&keyed)
    }

    fn to_toml_pretty(&self) -> Result<String, toml::ser::Error> {
        toml::to_string_pretty(&7_u8)
    }

    fn from_json(text: &str) -> Result<Self, serde_json::Error> {
        serde_json::from_str::<()>(text).map(|_| Unencodable)
    }

    fn from_toml(text: &str) -> Result<Self, toml::de::Error> {
        toml::from_str::<toml::Table>(text).map(|_| Unencodable)
    }
}

impl Storeable for Unencodable {}

/// Files held in memory, opened as a file system opens them.
struct Disk {
    files: BTreeMap<String, String>,
}

impl Disk {
    fn new() -> Disk {
        Disk { files: BTreeMap::new() }
    }

    fn write(&mut self, request: &WriteRequest) -> std::io::Result<()> {
        if !self.files.contains_key(&request.path) && !request.create_if_missing {
            return Err(std::io::Error::new(ErrorKind::NotFound, "no such file"));
        }
        let held = self.files.entry(request.path.clone()).or_default();
        if request.truncate {
            held.clear();
        }
        let kept: String = held.chars().skip(request.text.chars().count()).collect();
        *held = format!("{}{}", request.text, kept);
        Ok(())
    }

    fn read(&self, request: &ReadRequest) -> std::io::Result<String> {
        match self.files.get(&request.path) {
            Some(text) => Ok(text.clone()),
            None => Err(std::io::Error::new(ErrorKind::NotFound, "no such file")),
        }
    }

    fn save<T: Storeable>(&mut self, record: &T, path: &str, create: bool) -> Result<(), Error> {
        let request = record.save_by_extension(path, create)?;
        let outcome = self.write(&request);
        request.complete(outcome)
    }

    fn load<T: Storeable>(&self, path: &str) -> Result<T, Error> {
        let request = T::load_by_extension(path)?;
        let outcome = self.read(&request);
        request.complete(outcome)
    }
}

fn alice() -> User {
    User { name: "Alice".to_string(), email: "alice@alice.com".to_string() }
}

fn bob() -> User {
    User { name: "Bob".to_string(), email: "b@b.org".to_string() }
}

const ALICE_JSON: &str = "{\n  \"name\": \"Alice\",\n  \"email\": \"alice@alice.com\"\n}";
const ALICE_TOML: &str = "name = \"Alice\"\nemail = \"alice@alice.com\"\n";

#[test]
fn save_test() {
    let mut disk = Disk::new();
    let user = alice();
    let res = disk.save(&user, "test/user.toml", true);
    if let Err(e) = &res {
        println!("{}", e.message());
    }
    assert!(res.is_ok());
}

#[test]
fn load_test() {
    let mut disk = Disk::new();
    let user = alice();

    disk.save(&user, "test/user.toml", true).unwrap();

    let loaded = disk.load::<User>("test/user.toml");
    match loaded {
        Ok(v) => assert_eq!(v, user),
        Err(_) => assert!(loaded.is_ok()),
    }
}

#[test]
fn encode_gives_pretty_json() {
    assert_eq!(alice().encode(Format::Json).unwrap(), ALICE_JSON);
}

#[test]
fn encode_gives_pretty_toml() {
    assert_eq!(alice().encode(Format::Toml).unwrap(), ALICE_TOML);
}

#[test]
fn decode_reads_each_format() {
    assert_eq!(User::decode(ALICE_JSON, Format::Json).unwrap(), alice());
    assert_eq!(User::decode(ALICE_TOML, Format::Toml).unwrap(), alice());
    let compact = "{\"email\":\"b@b.org\",\"name\":\"Bob\"}";
    assert_eq!(User::decode(compact, Format::Json).unwrap(), bob());
}

#[test]
fn decode_in_the_wrong_format_fails_in_that_format() {
    assert!(matches!(User::decode(ALICE_JSON, Format::Toml), Err(Error::DesTomlE(_))));
    assert!(matches!(User::decode(ALICE_TOML, Format::Json), Err(Error::DesJsonE(_))));
}

#[test]
fn encode_failure_is_sorted_by_format() {
    assert!(matches!(Unencodable.encode(Format::Json), Err(Error::SerJsonE(_))));
    assert!(matches!(Unencodable.encode(Format::Toml), Err(Error::ParTomlE(_))));
}

#[test]
fn save_asks_to_write_the_encoding_and_nothing_else() {
    let request = alice().save("out/user.json", true, Format::Json).unwrap();
    assert_eq!(
        request,
        WriteRequest {
            path: "out/user.json".to_string(),
            create_if_missing: true,
            truncate: true,
            text: ALICE_JSON.to_string(),
        }
    );
    let request = alice().save("out/user.json", false, Format::Toml).unwrap();
    assert_eq!(
        request,
        WriteRequest {
            path: "out/user.json".to_string(),
            create_if_missing: false,
            truncate: true,
            text: ALICE_TOML.to_string(),
        }
    );
}

#[test]
fn save_with_explicit_format_ignores_the_extension() {
    let request = alice().save("user.yaml", true, Format::Toml).unwrap();
    assert_eq!(request.text, ALICE_TOML);
    assert_eq!(request.path, "user.yaml");
}

#[test]
fn save_that_cannot_encode_asks_for_no_write() {
    assert!(matches!(Unencodable.save("x.json", true, Format::Json), Err(Error::SerJsonE(_))));
    assert!(matches!(Unencodable.save("x.toml", true, Format::Toml), Err(Error::ParTomlE(_))));
    let mut disk = Disk::new();
    assert!(matches!(disk.save(&Unencodable, "x.json", true), Err(Error::SerJsonE(_))));
    assert!(matches!(disk.save(&Unencodable, "x.toml", true), Err(Error::ParTomlE(_))));
    assert!(disk.files.is_empty());
}

#[test]
fn save_by_extension_picks_the_format() {
    let request = alice().save_by_extension("user.json", true).unwrap();
    assert_eq!(request.text, ALICE_JSON);
    assert_eq!(request.path, "user.json");
    assert!(request.truncate);
    assert!(request.create_if_missing);
    let request = alice().save_by_extension("user.toml", false).unwrap();
    assert_eq!(request.text, ALICE_TOML);
    assert!(request.truncate);
    assert!(!request.create_if_missing);
}

#[test]
fn save_by_extension_refuses_before_anything_else() {
    assert!(matches!(
        alice().save_by_extension("user.yaml", true),
        Err(Error::ExtensionDoesNotExist)
    ));
    assert!(matches!(
        Unencodable.save_by_extension("user", true),
        Err(Error::ExtensionDoesNotExist)
    ));
    let mut disk = Disk::new();
    assert!(matches!(disk.save(&alice(), "user.JSON", true), Err(Error::ExtensionDoesNotExist)));
    assert!(disk.files.is_empty());
}

#[test]
fn load_asks_to_read_the_path() {
    let request = User::load("some/user.bin", Format::Json);
    assert_eq!(request, ReadRequest { path: "some/user.bin".to_string(), format: Format::Json });
}

#[test]
fn load_by_extension_picks_the_format() {
    assert_eq!(
        User::load_by_extension("a/user.toml").unwrap(),
        ReadRequest { path: "a/user.toml".to_string(), format: Format::Toml }
    );
    assert_eq!(
        User::load_by_extension("user.json").unwrap(),
        ReadRequest { path: "user.json".to_string(), format: Format::Json }
    );
}

#[test]
fn load_by_extension_refuses_without_reading() {
    assert!(matches!(User::load_by_extension("config.yaml"), Err(Error::ExtensionDoesNotExist)));
    let mut disk = Disk::new();
    disk.files.insert("config.yaml".to_string(), ALICE_JSON.to_string());
    assert!(matches!(disk.load::<User>("config.yaml"), Err(Error::ExtensionDoesNotExist)));
}

#[test]
fn completed_write_reports_the_outcome() {
    let request = alice().save("user.json", true, Format::Json).unwrap();
    assert!(request.complete(Ok(())).is_ok());
    let request = alice().save("user.json", true, Format::Json).unwrap();
    let failure = std::io::Error::new(ErrorKind::PermissionDenied, "read-only");
    match request.complete(Err(failure)) {
        Err(Error::IoE(cause)) => assert_eq!(cause.kind(), ErrorKind::PermissionDenied),
        _ => unreachable!(),
    }
}

#[test]
fn completed_read_decodes_in_the_format_of_the_request() {
    let loaded: User = User::load("u", Format::Json).complete(Ok(ALICE_JSON.to_string())).unwrap();
    assert_eq!(loaded, alice());
    let loaded: User = User::load("u", Format::Toml).complete(Ok(ALICE_TOML.to_string())).unwrap();
    assert_eq!(loaded, alice());
}

#[test]
fn completed_read_reports_a_failed_read() {
    let failure = std::io::Error::new(ErrorKind::NotFound, "no such file");
    let loaded: Result<User, Error> = User::load("u.json", Format::Json).complete(Err(failure));
    match loaded {
        Err(Error::IoE(cause)) => assert_eq!(cause.kind(), ErrorKind::NotFound),
        _ => unreachable!(),
    }
}

#[test]
fn invalid_content_is_a_decode_error_of_the_format() {
    let loaded: Result<User, Error> =
        User::load("u.json", Format::Json).complete(Ok("not json".to_string()));
    assert!(matches!(loaded, Err(Error::DesJsonE(_))));
    let loaded: Result<User, Error> =
        User::load("u.toml", Format::Toml).complete(Ok("= = =".to_string()));
    assert!(matches!(loaded, Err(Error::DesTomlE(_))));
    let mut disk = Disk::new();
    disk.files.insert("broken.toml".to_string(), "name = 3".to_string());
    assert!(matches!(disk.load::<User>("broken.toml"), Err(Error::DesTomlE(_))));
    disk.files.insert("broken.json".to_string(), "{\"name\": \"A\"}".to_string());
    assert!(matches!(disk.load::<User>("broken.json"), Err(Error::DesJsonE(_))));
}

#[test]
fn round_trip_json() {
    let mut disk = Disk::new();
    disk.save(&alice(), "user.json", true).unwrap();
    assert_eq!(disk.files["user.json"], ALICE_JSON);
    assert_eq!(disk.load::<User>("user.json").unwrap(), alice());
}

#[test]
fn round_trip_toml() {
    let mut disk = Disk::new();
    disk.save(&bob(), "dir/bob.toml", true).unwrap();
    assert_eq!(disk.load::<User>("dir/bob.toml").unwrap(), bob());
}

#[test]
fn saving_again_leaves_no_residue() {
    let mut disk = Disk::new();
    disk.save(&alice(), "user.json", true).unwrap();
    disk.save(&bob(), "user.json", true).unwrap();
    assert_eq!(disk.files["user.json"], "{\n  \"name\": \"Bob\",\n  \"email\": \"b@b.org\"\n}");
    assert_eq!(disk.load::<User>("user.json").unwrap(), bob());
}

#[test]
fn a_missing_file_is_created_only_on_demand() {
    let mut disk = Disk::new();
    assert!(matches!(disk.save(&alice(), "new.toml", false), Err(Error::IoE(_))));
    assert!(disk.files.is_empty());
    disk.save(&alice(), "new.toml", true).unwrap();
    assert_eq!(disk.files["new.toml"], ALICE_TOML);
    disk.save(&bob(), "new.toml", false).unwrap();
    assert_eq!(disk.load::<User>("new.toml").unwrap(), bob());
}

#[test]
fn loading_a_missing_file_is_an_io_error() {
    let disk = Disk::new();
    assert!(matches!(disk.load::<User>("absent.json"), Err(Error::IoE(_))));
}

#[test]
fn alice_in_toml_has_two_string_keys() {
    let mut disk = Disk::new();
    disk.save(&alice(), "user.toml", true).unwrap();
    let document: toml::Table = toml::from_str(&disk.files["user.toml"]).unwrap();
    assert_eq!(document.len(), 2);
    assert_eq!(document["name"].as_str(), Some("Alice"));
    assert_eq!(document["email"].as_str(), Some("alice@alice.com"));
    assert_eq!(disk.load::<User>("user.toml").unwrap(), alice());
}
