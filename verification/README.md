# authenticator

A service that issues signed authentication policies for accounts of a
blockchain, checks and withdraws them, and follows their confirmation on the
chain.

- `src/` is the verified library (Verus): token hashing and policy signing,
  the account-name encoding, the request throttle, the decisions of the
  endpoints and of the blockchain updater, and the text of the requests and
  answers. Calls into `sha2`, `hmac`, `base64`, `uuid` and the system clock stand
  behind small trusted wrappers whose contracts are documented beside them.
- `app/` is the program around it: configuration, the sled database, the HTTP
  server (actix-web), the blockchain client (ureq) and the background loops.
- `tests/` runs the library on concrete values.
