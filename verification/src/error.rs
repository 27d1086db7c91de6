//! Error taxonomy surfaced to the assistant-facing layer.

use vstd::prelude::*;

verus! {

/// Everything that can go wrong between the dispatcher and a plugin.
#[derive(Debug)]
pub enum StudioLinkError {
    /// Plugin is not connected or not responding
    PluginNotConnected,
    /// Request timed out waiting for plugin response
    RequestTimeout(String),
    /// Plugin returned an error
    PluginError(String),
    /// Invalid tool arguments
    InvalidArguments(String),
    /// HTTP server error
    ServerError(String),
    /// MCP protocol error
    McpError(String),
    /// Serialization error
    SerializationError(String),
    /// IO error, carried as its rendered message
    IoError(String),
}

impl StudioLinkError {
    /// The human-readable line for this error.
    pub open spec fn message_view(&self) -> Seq<char> {
        match self {
            StudioLinkError::PluginNotConnected => "Studio plugin is not connected"@,
            StudioLinkError::RequestTimeout(id) => "Request "@ + id@ + " timed out"@,
            StudioLinkError::PluginError(msg) => "Plugin error: "@ + msg@,
            StudioLinkError::InvalidArguments(msg) => "Invalid arguments: "@ + msg@,
            StudioLinkError::ServerError(msg) => "Server error: "@ + msg@,
            StudioLinkError::McpError(msg) => "MCP error: "@ + msg@,
            StudioLinkError::SerializationError(msg) => "Serialization error: "@ + msg@,
            StudioLinkError::IoError(msg) => "IO error: "@ + msg@,
        }
    }

    /// Render the error as the text shown to a human.
    pub fn message(&self) -> (r: String)
        ensures
            r@ == self.message_view(),
    {
        match self {
            StudioLinkError::PluginNotConnected => {
                String::from_str("Studio plugin is not connected")
            },
            StudioLinkError::RequestTimeout(id) => {
                String::from_str("Request ").concat(id.as_str()).concat(" timed out")
            },
            StudioLinkError::PluginError(msg) => {
                String::from_str("Plugin error: ").concat(msg.as_str())
            },
            StudioLinkError::InvalidArguments(msg) => {
                String::from_str("Invalid arguments: ").concat(msg.as_str())
            },
            StudioLinkError::ServerError(msg) => {
                String::from_str("Server error: ").concat(msg.as_str())
            },
            StudioLinkError::McpError(msg) => {
                String::from_str("MCP error: ").concat(msg.as_str())
            },
            StudioLinkError::SerializationError(msg) => {
                String::from_str("Serialization error: ").concat(msg.as_str())
            },
            StudioLinkError::IoError(msg) => {
                String::from_str("IO error: ").concat(msg.as_str())
            },
        }
    }

    /// Render the error the way the assistant sees it in a tool reply.
    pub fn to_error_line(&self) -> (r: String)
        ensures
            r@ == "Error: "@ + self.message_view(),
    {
        String::from_str("Error: ").concat(self.message().as_str())
    }
}

} // verus!
