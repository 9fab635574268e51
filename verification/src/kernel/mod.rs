pub mod passive_dns;
