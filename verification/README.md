# serpens

Project Serpens is a reconnaissance tool: given a domain, it discovers subdomains (from
the certificates that crt.sh has logged, or from a wordlist) and files (from a wordlist).

- `src/` is the verified library: the session (module registry, event dispatch, discovered
  subdomains), the modules' decisions (what to request, what a response means, what to
  log), the handling of crt.sh certificates, and the text processing they rely on.
- `app/` is the program around it: command-line parsing, the event channel and loop,
  HTTP requests, files and terminal output.
- `tests/` runs the library on concrete values.
