# lclhst

Share local apps and folders with other devices, over the LAN or peer-to-peer,
with no server in the middle.

The library (`src/`) holds everything that decides or computes, with contracts
that Verus proves: the hello protocol and tickets, the edge's pages and plain
HTTP answers, the file server's routing, listings and containment, the LAN
addresses and their announcement, the certificate authority and the TLS
settings minted from it, and the steps of serving, opening and trusting. Calls
into other crates go through small trusted functions, each with a comment that
says what is taken on faith.

The program (`app/`) drives sockets, files and processes around it. It lists the
network interfaces with `local-ip-address`, which Cargo.toml leaves out: with it
the lock file outgrows the number of packages that this project keeps to.

| module                            | what it is about                              |
|-----------------------------------|-----------------------------------------------|
| `protocol`, `target`, `splice`    | streams through the tunnel                    |
| `ticket`                          | `<name>@<endpoint>` tickets                   |
| `share`, `session`, `banner`, `qr`| what is shared, how far, and what is printed  |
| `edge`, `plaintext`, `headers`    | the HTTPS front door and plain HTTP           |
| `fileserve`, `listing`            | the built-in file server                      |
| `percent`, `size`, `text`         | percent-coding, sizes and texts               |
| `mdns`, `net`                     | names and addresses on the LAN                |
| `ca`, `subject`, `tls`, `trust`   | certificates and trusting them                |
