//! The settings that the passes run with.

use vstd::prelude::*;

verus! {

/// All settings.
#[derive(Debug, PartialEq)]
pub struct Config {
    pub db: Db,
    pub steam: Steam,
    pub notion: Notion,
}

/// Where the database is and how to log in to it.
#[derive(Debug, PartialEq)]
pub struct Db {
    pub host: String,
    pub port: String,
    pub user: String,
    pub password: String,
    pub dbname: String,
}

/// Where the library provider is, the key to ask with and the account to
/// ask for.
#[derive(Debug, PartialEq)]
pub struct Steam {
    pub api_key: String,
    pub api_hoststring: String,
    pub store_hoststring: String,
    pub user_id: String,
}

/// Where the notes provider is, the key to ask with and the database that
/// holds the notes.
#[derive(Debug, PartialEq)]
pub struct Notion {
    pub api_key: String,
    pub database_id: String,
    pub api_hoststring: String,
}

impl Db {
    /// The settings as one line of `key=value` pairs.
    pub open spec fn connection_text(self) -> Seq<char> {
        "host="@ + self.host@ + " port="@ + self.port@ + " user="@ + self.user@ + " password="@
            + self.password@ + " dbname="@ + self.dbname@
    }

    /// The line that a connection to the database is opened with.
    pub fn connection_string(&self) -> (s: String)
        ensures
            s@ == self.connection_text(),
    {
        let mut s = "host=".to_owned();
        s.append(self.host.as_str());
        s.append(" port=");
        s.append(self.port.as_str());
        s.append(" user=");
        s.append(self.user.as_str());
        s.append(" password=");
        s.append(self.password.as_str());
        s.append(" dbname=");
        s.append(self.dbname.as_str());
        s
    }
}

/// The database that is taken where the settings name none.
pub fn default_db() -> (db: Db)
    ensures
        db.host@ == "localhost"@,
        db.port@ == "5432"@,
        db.user@ == "admin"@,
        db.password@ == "admin"@,
        db.dbname@ == "rusteam"@,
{
    Db {
        host: "localhost".to_owned(),
        port: "5432".to_owned(),
        user: "admin".to_owned(),
        password: "admin".to_owned(),
        dbname: "rusteam".to_owned(),
    }
}

/// The host of the library provider's interface that is taken where the
/// settings name none.
pub fn default_api_hoststring() -> (s: String)
    ensures
        s@ == "https://api.steampowered.com"@,
{
    "https://api.steampowered.com".to_owned()
}

/// The host of the library provider's shop that is taken where the
/// settings name none.
pub fn default_store_hoststring() -> (s: String)
    ensures
        s@ == "https://store.steampowered.com"@,
{
    "https://store.steampowered.com".to_owned()
}

/// The host of the notes provider that is taken where the settings name
/// none.
pub fn default_notion_hoststring() -> (s: String)
    ensures
        s@ == "https://api.notion.com"@,
{
    "https://api.notion.com".to_owned()
}

} // verus!
