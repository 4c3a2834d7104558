pub mod alpn;
pub mod cert;
pub mod http;
pub mod tls;
pub mod url;
pub mod x509;
