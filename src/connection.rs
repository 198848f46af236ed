//! The debug servers found by a scan of the host.
use vstd::prelude::*;
use vstd::string::StringExecFns;

verus! {

/// Information about one debug server.
#[derive(Debug)]
pub struct ServerInfo {
    acc_hw: String,
    server: String,
    system_instance: String,
}

impl ServerInfo {
    pub closed spec fn spec_acc_hw(&self) -> Seq<char> {
        self.acc_hw@
    }

    pub closed spec fn spec_server(&self) -> Seq<char> {
        self.server@
    }

    pub closed spec fn spec_system_instance(&self) -> Seq<char> {
        self.system_instance@
    }

    /// Server information with the given descriptors.
    pub fn new(acc_hw: String, server: String, system_instance: String) -> (r: Self)
        ensures
            r.spec_acc_hw() == acc_hw@,
            r.spec_server() == server@,
            r.spec_system_instance() == system_instance@,
    {
        ServerInfo { acc_hw, server, system_instance }
    }

    /// Descriptor of the access hardware in use by the server.
    pub fn acc_hw(&self) -> (r: &str)
        ensures
            r@ == self.spec_acc_hw(),
    {
        self.acc_hw.as_str()
    }

    /// Description of the server itself.
    pub fn server(&self) -> (r: &str)
        ensures
            r@ == self.spec_server(),
    {
        self.server.as_str()
    }

    /// The system instance that the server exposes.
    pub fn system_instance(&self) -> (r: &str)
        ensures
            r@ == self.spec_system_instance(),
    {
        self.system_instance.as_str()
    }
}

/// The servers that a scan found, in the order reported.
#[derive(Debug)]
pub struct Connection {
    servers: Vec<ServerInfo>,
}

impl Connection {
    pub closed spec fn spec_servers(&self) -> Seq<ServerInfo> {
        self.servers@
    }

    /// A connection over the servers that a scan reported.
    pub fn from_servers(servers: Vec<ServerInfo>) -> (r: Self)
        ensures
            r.spec_servers() == servers@,
    {
        Connection { servers }
    }

    /// All servers available in this connection.
    pub fn servers(&self) -> (r: &[ServerInfo])
        ensures
            r@ == self.spec_servers(),
    {
        self.servers.as_slice()
    }

    /// Number of servers available.
    pub fn count(&self) -> (r: usize)
        ensures
            r == self.spec_servers().len(),
    {
        self.servers.len()
    }
}

/// Parameters that restrict which servers a query opens.
#[derive(Debug, Default)]
pub struct ServerConfig {
    /// Restricts this server to connect to devices via a specific access
    /// hardware as determined by the string.
    pub acc_hw: Option<String>,
}

/// The configuration string of `config`: one `name="value"` line per set
/// parameter, then a terminating NUL.
pub open spec fn config_string(config: ServerConfig) -> Seq<char> {
    match config.acc_hw {
        Some(v) => seq!['M', 'c', 'd', 'A', 'c', 'c', 'H', 'w', '=', '"'] + v@ + seq!['"', '\n', '\0'],
        None => seq!['\0'],
    }
}

impl ServerConfig {
    /// The NUL-terminated configuration string that a server query takes.
    pub fn as_config_string(&self) -> (r: String)
        ensures
            r@ == config_string(*self),
    {
        let mut composed_string = String::new();
        match &self.acc_hw {
            Some(value) => {
                proof {
                    reveal_strlit("McdAccHw=\"");
                    reveal_strlit("\"\n");
                }
                composed_string.append("McdAccHw=\"");
                composed_string.append(value.as_str());
                composed_string.append("\"\n");
            },
            None => {},
        }
        proof {
            reveal_strlit("\0");
        }
        composed_string.append("\0");
        assert(composed_string@ =~= config_string(*self));
        composed_string
    }
}

} // verus!
