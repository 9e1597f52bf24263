//! Where the relational database that persists the store is found.

use vstd::prelude::*;
use vstd::string::StringExecFns;
use crate::records::Text;

verus! {

/// The account, host and database of a MySQL server.
pub struct MySQLConfig {
    user: String,
    password: String,
    host: String,
    database: String,
}

pub struct MySQLConfigView {
    pub user: Text,
    pub password: Text,
    pub host: Text,
    pub database: Text,
}

impl View for MySQLConfig {
    type V = MySQLConfigView;

    closed spec fn view(&self) -> MySQLConfigView {
        MySQLConfigView {
            user: self.user@,
            password: self.password@,
            host: self.host@,
            database: self.database@,
        }
    }
}

/// The connection URL of a configuration: scheme, account, host and
/// database, with an empty password written as nothing between `:` and
/// `@`.
pub open spec fn url_of(c: MySQLConfigView) -> Text {
    "mysql://"@ + c.user + ":"@ + c.password + "@"@ + c.host + "/"@ + c.database
}

impl MySQLConfig {
    pub fn new(user: String, password: String, host: String, database: String) -> (c: Self)
        ensures
            c@ == (MySQLConfigView {
                user: user@,
                password: password@,
                host: host@,
                database: database@,
            }),
    {
        Self { user, password, host, database }
    }

    /// The URL under which a connection pool reaches the database.
    pub fn format_url(&self) -> (url: String)
        ensures
            url@ == url_of(self@),
    {
        let mut url = String::from_str("mysql://");
        url.append(self.user.as_str());
        url.append(":");
        url.append(self.password.as_str());
        url.append("@");
        url.append(self.host.as_str());
        url.append("/");
        url.append(self.database.as_str());
        url
    }
}

} // verus!
